//! Posts and users as the web API returns them, and the SQL statements that
//! store them. Fields that hold free-form JSON are kept as their JSON text.

use vstd::prelude::*;
use vstd::string::*;
use crate::sql_text::{insert_sql, push_opt, sql_quote, to_sql_str, Column, InsertBuilder};
use crate::strings::{bool_text, decimal, i64_text, signed_decimal, u64_text};

verus! {

/// A user as embedded in a post.
#[derive(Debug, Clone)]
pub struct PostUser {
    pub profile_url: String,
    pub planet_video: bool,
    pub v_plus: i64,
    pub id: u64,
    pub pc_new: i64,
    pub screen_name: String,
    pub profile_image_url: String,
    pub verified: bool,
    pub verified_type: i64,
    pub domain: String,
    pub weihao: String,
    pub verified_type_ext: Option<i64>,
    pub avatar_large: String,
    pub avatar_hd: String,
    pub follow_me: bool,
    pub following: bool,
    pub mbrank: i64,
    pub mbtype: i64,
    /// The JSON text of the icon list.
    pub icon_list: String,
}

/// A post. The fields documented as JSON text hold the JSON of a value the
/// API returns in free form.
#[derive(Debug)]
pub struct Post {
    pub id: u64,
    /// JSON text.
    pub visible: String,
    pub created_at: String,
    pub mblogid: String,
    pub user: Option<PostUser>,
    pub text_raw: String,
    pub text: String,
    pub attitudes_status: i64,
    pub share_repost_type: Option<i64>,
    pub show_feed_repost: bool,
    pub show_feed_comment: bool,
    pub picture_viewer_sign: bool,
    pub show_picture_viewer: bool,
    pub source: String,
    pub favorited: bool,
    pub can_edit: bool,
    /// JSON text.
    pub annotations: String,
    pub rid: Option<String>,
    pub cardid: Option<String>,
    pub pic_ids: Option<Vec<String>>,
    /// JSON text.
    pub pic_infos: String,
    /// JSON text.
    pub geo: String,
    pub pic_num: Option<i64>,
    /// JSON text.
    pub pic_focus_point: String,
    pub is_paid: bool,
    pub pic_bg_new: Option<String>,
    /// JSON text.
    pub topic_struct: String,
    /// JSON text.
    pub page_info: String,
    pub deleted: bool,
    pub mark: Option<String>,
    /// JSON text.
    pub tag_struct: String,
    /// JSON text.
    pub title: String,
    pub mblog_vip_type: Option<i64>,
    /// JSON text.
    pub number_display_strategy: String,
    pub reposts_count: Option<i64>,
    pub comments_count: Option<i64>,
    pub attitudes_count: Option<i64>,
    /// JSON text.
    pub continue_tag: String,
    pub mlevel: Option<i64>,
    pub content_auth: Option<i64>,
    pub is_show_bulletin: Option<i64>,
    /// JSON text.
    pub comment_manage_info: String,
    pub repost_type: Option<i64>,
    /// JSON text.
    pub url_struct: String,
    pub retweeted_status: Option<Box<Post>>,
    pub edit_count: Option<i64>,
    pub mblogtype: Option<i64>,
    pub region_name: Option<String>,
    /// JSON text.
    pub mix_media_info: String,
    pub text_length: Option<i64>,
    pub is_long_text: bool,
}

/// The number of favorites of the account.
#[derive(Debug, Clone, Copy)]
pub struct FavTag {
    pub fav_total_num: u64,
    pub ok: u8,
}

/// The text that `{:?}` writes for a string: in double quotes, with
/// special characters escaped.
pub uninterp spec fn debug_text(s: Seq<char>) -> Seq<char>;

/// Formats `s` with `{:?}`: `str`'s `Debug`, a function of `s` alone.
#[verifier::external_body]
fn debug_quoted(s: &str) -> (res: String)
    ensures
        res@ == debug_text(s@),
{
    format!("{:?}", s)
}

/// An optional integer as SQL text.
pub open spec fn opt_int(v: Option<i64>) -> Option<Seq<char>> {
    match v {
        Some(n) => Some(signed_decimal(n as int)),
        None => None,
    }
}

/// An optional string as an SQL literal.
pub open spec fn opt_quoted(v: Option<String>) -> Option<Seq<char>> {
    match v {
        Some(s) => Some(sql_quote(s@)),
        None => None,
    }
}

/// The picture ids, each followed by `|`.
pub open spec fn bar_terminated(ids: Seq<String>) -> Seq<char>
    decreases ids.len(),
{
    if ids.len() == 0 {
        Seq::empty()
    } else {
        bar_terminated(ids.drop_last()) + ids.last()@ + seq!['|']
    }
}

/// The picture ids as stored: in quotes, each followed by `|`.
pub open spec fn pic_ids_text(ids: Seq<String>) -> Seq<char> {
    seq!['\''] + bar_terminated(ids) + seq!['\'']
}

/// The columns of a post's row, up to its text.
pub open spec fn post_columns_head(p: Post, c: Seq<Column>) -> Seq<Column> {
    let c = c.push(("id"@, decimal(p.id as nat))).push(
        ("visible"@, sql_quote(p.visible@)),
    ).push(("created_at"@, sql_quote(p.created_at@))).push(("mblogid"@, sql_quote(p.mblogid@)));
    let c = push_opt(
        c,
        "uid"@,
        match p.user {
            Some(u) => Some(decimal(u.id as nat)),
            None => None,
        },
    );
    c.push(("text_raw"@, sql_quote(p.text_raw@))).push(("text"@, sql_quote(p.text@)))
}

/// The columns of a post's row, from its attitudes to its picture ids.
pub open spec fn post_columns_mid(p: Post, c: Seq<Column>) -> Seq<Column> {
    let c = c.push(("attitudes_status"@, signed_decimal(p.attitudes_status as int)));
    let c = push_opt(c, "share_repost_type"@, opt_int(p.share_repost_type));
    let c = c.push(("showFeedRepost"@, bool_text(p.show_feed_repost))).push(
        ("showFeedComment"@, bool_text(p.show_feed_comment)),
    ).push(("pictureViewerSign"@, bool_text(p.picture_viewer_sign))).push(
        ("showPictureViewer"@, bool_text(p.show_picture_viewer)),
    ).push(("source"@, sql_quote(p.source@))).push(("favorited"@, bool_text(p.favorited))).push(
        ("can_edit"@, bool_text(p.can_edit)),
    ).push(("annotations"@, sql_quote(p.annotations@)));
    let c = push_opt(c, "rid"@, opt_quoted(p.rid));
    let c = push_opt(c, "cardid"@, opt_quoted(p.cardid));
    push_opt(
        c,
        "pic_ids"@,
        match p.pic_ids {
            Some(ids) => Some(pic_ids_text(ids@)),
            None => None,
        },
    )
}

/// The columns of a post's row, from its picture infos to its title.
pub open spec fn post_columns_tail1(p: Post, c: Seq<Column>) -> Seq<Column> {
    let c = c.push(("pic_infos"@, sql_quote(p.pic_infos@))).push(("geo"@, sql_quote(p.geo@)));
    let c = push_opt(c, "pic_num"@, opt_int(p.pic_num));
    let c = c.push(("pic_focus_point"@, sql_quote(p.pic_focus_point@))).push(
        ("is_paid"@, bool_text(p.is_paid)),
    );
    let c = push_opt(c, "pic_bg_new"@, opt_quoted(p.pic_bg_new));
    let c = c.push(("topic_struct"@, sql_quote(p.topic_struct@))).push(
        ("page_info"@, sql_quote(p.page_info@)),
    ).push(("deleted"@, bool_text(p.deleted)));
    let c = push_opt(c, "mark"@, opt_quoted(p.mark));
    c.push(("tag_struct"@, sql_quote(p.tag_struct@))).push(("title"@, sql_quote(p.title@)))
}

/// The columns of a post's row, from its VIP type on.
pub open spec fn post_columns_tail2(p: Post, c: Seq<Column>) -> Seq<Column> {
    let c = push_opt(c, "mblog_vip_type"@, opt_int(p.mblog_vip_type));
    let c = c.push(("number_display_strategy"@, sql_quote(p.number_display_strategy@)));
    let c = push_opt(c, "reposts_count"@, opt_int(p.reposts_count));
    let c = push_opt(c, "comments_count"@, opt_int(p.comments_count));
    let c = push_opt(c, "attitudes_count"@, opt_int(p.attitudes_count));
    let c = c.push(("continue_tag"@, sql_quote(p.continue_tag@)));
    let c = push_opt(c, "mlevel"@, opt_int(p.mlevel));
    let c = push_opt(c, "content_auth"@, opt_int(p.content_auth));
    let c = push_opt(c, "is_show_bulletin"@, opt_int(p.is_show_bulletin));
    let c = c.push(("comment_manage_info"@, sql_quote(p.comment_manage_info@)));
    let c = push_opt(c, "repost_type"@, opt_int(p.repost_type));
    let c = c.push(("url_struct"@, sql_quote(p.url_struct@)));
    let c = push_opt(
        c,
        "retweeted_status"@,
        match p.retweeted_status {
            Some(r) => Some(decimal(r.id as nat)),
            None => None,
        },
    );
    let c = push_opt(c, "edit_count"@, opt_int(p.edit_count));
    let c = push_opt(c, "mblogtype"@, opt_int(p.mblogtype));
    let c = push_opt(c, "region_name"@, opt_quoted(p.region_name));
    let c = c.push(("mix_media_info"@, sql_quote(p.mix_media_info@)));
    let c = push_opt(c, "textLength"@, opt_int(p.text_length));
    c.push(("isLongText"@, bool_text(p.is_long_text)))
}

/// The columns of a post's row, in the order they are written.
pub open spec fn post_columns(p: Post) -> Seq<Column> {
    post_columns_tail2(
        p,
        post_columns_tail1(p, post_columns_mid(p, post_columns_head(p, Seq::empty()))),
    )
}

/// The columns of a user's row, in the order they are written.
pub open spec fn user_columns(u: PostUser) -> Seq<Column> {
    let c = Seq::<Column>::empty().push(("profile_url"@, debug_text(u.profile_url@))).push(
        ("planet_video"@, bool_text(u.planet_video)),
    ).push(("v_plus"@, signed_decimal(u.v_plus as int))).push(("id"@, decimal(u.id as nat))).push(
        ("pc_new"@, signed_decimal(u.pc_new as int)),
    ).push(("screen_name"@, debug_text(u.screen_name@))).push(
        ("profile_image_url"@, debug_text(u.profile_image_url@)),
    ).push(("verified"@, bool_text(u.verified))).push(
        ("verified_type"@, signed_decimal(u.verified_type as int)),
    ).push(("domain"@, debug_text(u.domain@))).push(("weihao"@, debug_text(u.weihao@)));
    let c = push_opt(c, "verified_type_ext"@, opt_int(u.verified_type_ext));
    c.push(("avatar_large"@, debug_text(u.avatar_large@))).push(
        ("avatar_hd"@, debug_text(u.avatar_hd@)),
    ).push(("follow_me"@, bool_text(u.follow_me))).push(("following"@, bool_text(u.following))).push(
        ("mbrank"@, signed_decimal(u.mbrank as int)),
    ).push(("mbtype"@, signed_decimal(u.mbtype as int))).push(
        ("icon_list"@, seq!['\''] + u.icon_list@ + seq!['\'']),
    )
}

/// `true` or `false`.
fn bool_string(b: bool) -> (res: String)
    ensures
        res@ == bool_text(b),
{
    if b {
        String::from_str("true")
    } else {
        String::from_str("false")
    }
}

/// An optional integer as SQL text.
fn opt_int_string(v: Option<i64>) -> (res: Option<String>)
    ensures
        match res {
            Some(s) => opt_int(v) == Some(s@),
            None => opt_int(v) is None,
        },
{
    match v {
        Some(n) => Some(i64_text(n)),
        None => None,
    }
}

/// An optional string as an SQL literal.
fn opt_quoted_string(v: &Option<String>) -> (res: Option<String>)
    ensures
        match res {
            Some(s) => opt_quoted(*v) == Some(s@),
            None => opt_quoted(*v) is None,
        },
{
    match v {
        Some(s) => Some(to_sql_str(s.as_str())),
        None => None,
    }
}

/// The picture ids as stored: in quotes, each followed by `|`.
pub fn pic_ids_string(ids: &Vec<String>) -> (res: String)
    ensures
        res@ == pic_ids_text(ids@),
{
    let mut res = String::from_str("'");
    let mut i: usize = 0;
    proof {
        reveal_strlit("'");
        reveal_strlit("|");
        assert(ids@.take(0) =~= Seq::<String>::empty());
    }
    while i < ids.len()
        invariant
            i <= ids@.len(),
            res@ == seq!['\''] + bar_terminated(ids@.take(i as int)),
        decreases ids.len() - i,
    {
        res.append(ids[i].as_str());
        res.append("|");
        proof {
            reveal_strlit("|");
            assert(ids@.take(i + 1).drop_last() =~= ids@.take(i as int));
            assert(res@ =~= seq!['\''] + bar_terminated(ids@.take(i + 1)));
        }
        i = i + 1;
    }
    res.append("'");
    proof {
        reveal_strlit("'");
        assert(ids@.take(ids@.len() as int) =~= ids@);
        assert(res@ =~= pic_ids_text(ids@));
    }
    res
}

impl Post {
    /// Adds the columns of the post up to its text.
    fn push_head_columns(&self, b: &mut InsertBuilder)
        requires
            old(b).wf(),
        ensures
            final(b).wf(),
            final(b).columns() == post_columns_head(*self, old(b).columns()),
    {
        b.push("id", u64_text(self.id).as_str());
        b.push("visible", to_sql_str(self.visible.as_str()).as_str());
        b.push("created_at", to_sql_str(self.created_at.as_str()).as_str());
        b.push("mblogid", to_sql_str(self.mblogid.as_str()).as_str());
        b.push_opt(
            "uid",
            match &self.user {
                Some(u) => Some(u64_text(u.id)),
                None => None,
            },
        );
        b.push("text_raw", to_sql_str(self.text_raw.as_str()).as_str());
        b.push("text", to_sql_str(self.text.as_str()).as_str());
    }

    /// Adds the columns of the post from its attitudes to its picture ids.
    fn push_mid_columns(&self, b: &mut InsertBuilder)
        requires
            old(b).wf(),
        ensures
            final(b).wf(),
            final(b).columns() == post_columns_mid(*self, old(b).columns()),
    {
        b.push("attitudes_status", i64_text(self.attitudes_status).as_str());
        b.push_opt("share_repost_type", opt_int_string(self.share_repost_type));
        b.push("showFeedRepost", bool_string(self.show_feed_repost).as_str());
        b.push("showFeedComment", bool_string(self.show_feed_comment).as_str());
        b.push("pictureViewerSign", bool_string(self.picture_viewer_sign).as_str());
        b.push("showPictureViewer", bool_string(self.show_picture_viewer).as_str());
        b.push("source", to_sql_str(self.source.as_str()).as_str());
        b.push("favorited", bool_string(self.favorited).as_str());
        b.push("can_edit", bool_string(self.can_edit).as_str());
        b.push("annotations", to_sql_str(self.annotations.as_str()).as_str());
        b.push_opt("rid", opt_quoted_string(&self.rid));
        b.push_opt("cardid", opt_quoted_string(&self.cardid));
        b.push_opt(
            "pic_ids",
            match &self.pic_ids {
                Some(ids) => Some(pic_ids_string(ids)),
                None => None,
            },
        );
    }

    /// Adds the columns of the post from its picture infos to its title.
    fn push_tail1_columns(&self, b: &mut InsertBuilder)
        requires
            old(b).wf(),
        ensures
            final(b).wf(),
            final(b).columns() == post_columns_tail1(*self, old(b).columns()),
    {
        b.push("pic_infos", to_sql_str(self.pic_infos.as_str()).as_str());
        b.push("geo", to_sql_str(self.geo.as_str()).as_str());
        b.push_opt("pic_num", opt_int_string(self.pic_num));
        b.push("pic_focus_point", to_sql_str(self.pic_focus_point.as_str()).as_str());
        b.push("is_paid", bool_string(self.is_paid).as_str());
        b.push_opt("pic_bg_new", opt_quoted_string(&self.pic_bg_new));
        b.push("topic_struct", to_sql_str(self.topic_struct.as_str()).as_str());
        b.push("page_info", to_sql_str(self.page_info.as_str()).as_str());
        b.push("deleted", bool_string(self.deleted).as_str());
        b.push_opt("mark", opt_quoted_string(&self.mark));
        b.push("tag_struct", to_sql_str(self.tag_struct.as_str()).as_str());
        b.push("title", to_sql_str(self.title.as_str()).as_str());
    }

    /// Adds the columns of the post from its VIP type on.
    fn push_tail2_columns(&self, b: &mut InsertBuilder)
        requires
            old(b).wf(),
        ensures
            final(b).wf(),
            final(b).columns() == post_columns_tail2(*self, old(b).columns()),
    {
        b.push_opt("mblog_vip_type", opt_int_string(self.mblog_vip_type));
        b.push(
            "number_display_strategy",
            to_sql_str(self.number_display_strategy.as_str()).as_str(),
        );
        b.push_opt("reposts_count", opt_int_string(self.reposts_count));
        b.push_opt("comments_count", opt_int_string(self.comments_count));
        b.push_opt("attitudes_count", opt_int_string(self.attitudes_count));
        b.push("continue_tag", to_sql_str(self.continue_tag.as_str()).as_str());
        b.push_opt("mlevel", opt_int_string(self.mlevel));
        b.push_opt("content_auth", opt_int_string(self.content_auth));
        b.push_opt("is_show_bulletin", opt_int_string(self.is_show_bulletin));
        b.push("comment_manage_info", to_sql_str(self.comment_manage_info.as_str()).as_str());
        b.push_opt("repost_type", opt_int_string(self.repost_type));
        b.push("url_struct", to_sql_str(self.url_struct.as_str()).as_str());
        b.push_opt(
            "retweeted_status",
            match &self.retweeted_status {
                Some(r) => Some(u64_text(r.id)),
                None => None,
            },
        );
        b.push_opt("edit_count", opt_int_string(self.edit_count));
        b.push_opt("mblogtype", opt_int_string(self.mblogtype));
        b.push_opt("region_name", opt_quoted_string(&self.region_name));
        b.push("mix_media_info", to_sql_str(self.mix_media_info.as_str()).as_str());
        b.push_opt("textLength", opt_int_string(self.text_length));
        b.push("isLongText", bool_string(self.is_long_text).as_str());
    }

    /// The statement that stores the post in `fav_post`, leaving a row that
    /// is already there as it is. Absent optional fields are left out; text
    /// is quoted with `'` doubled; JSON values are stored as their text.
    pub fn to_sql(&self) -> (res: String)
        ensures
            res@ == insert_sql("INSERT OR IGNORE INTO fav_post ("@, post_columns(*self)),
    {
        let mut b = InsertBuilder::new();
        self.push_head_columns(&mut b);
        self.push_mid_columns(&mut b);
        self.push_tail1_columns(&mut b);
        self.push_tail2_columns(&mut b);
        b.finish("INSERT OR IGNORE INTO fav_post (")
    }
}

impl PostUser {
    /// The statement that stores the user in `user`, leaving a row that is
    /// already there as it is. Text fields are written as `{:?}` writes
    /// them; the icon list is its JSON text in single quotes.
    pub fn to_sql(&self) -> (res: String)
        ensures
            res@ == insert_sql("INSERT OR IGNORE INTO user ("@, user_columns(*self)),
    {
        let mut b = InsertBuilder::new();
        b.push("profile_url", debug_quoted(self.profile_url.as_str()).as_str());
        b.push("planet_video", bool_string(self.planet_video).as_str());
        b.push("v_plus", i64_text(self.v_plus).as_str());
        b.push("id", u64_text(self.id).as_str());
        b.push("pc_new", i64_text(self.pc_new).as_str());
        b.push("screen_name", debug_quoted(self.screen_name.as_str()).as_str());
        b.push("profile_image_url", debug_quoted(self.profile_image_url.as_str()).as_str());
        b.push("verified", bool_string(self.verified).as_str());
        b.push("verified_type", i64_text(self.verified_type).as_str());
        b.push("domain", debug_quoted(self.domain.as_str()).as_str());
        b.push("weihao", debug_quoted(self.weihao.as_str()).as_str());
        b.push_opt("verified_type_ext", opt_int_string(self.verified_type_ext));
        b.push("avatar_large", debug_quoted(self.avatar_large.as_str()).as_str());
        b.push("avatar_hd", debug_quoted(self.avatar_hd.as_str()).as_str());
        b.push("follow_me", bool_string(self.follow_me).as_str());
        b.push("following", bool_string(self.following).as_str());
        b.push("mbrank", i64_text(self.mbrank).as_str());
        b.push("mbtype", i64_text(self.mbtype).as_str());
        let mut icons = String::from_str("'");
        icons.append(self.icon_list.as_str());
        icons.append("'");
        proof {
            reveal_strlit("'");
            assert(icons@ =~= seq!['\''] + self.icon_list@ + seq!['\'']);
        }
        b.push("icon_list", icons.as_str());
        b.finish("INSERT OR IGNORE INTO user (")
    }
}

} // verus!


verus! {

proof fn lemma_append_steps()
    ensures
        forall|c: Seq<Column>, a: Seq<Column>, x: Column| #[trigger] (c + a.push(x)) == (c + a).push(x),
        forall|c: Seq<Column>, a: Seq<Column>, n: Seq<char>, v: Option<Seq<char>>| #[trigger] (c
            + push_opt(a, n, v)) == push_opt(c + a, n, v),
        forall|c: Seq<Column>| #[trigger] (c + Seq::<Column>::empty()) == c,
{
    assert forall|c: Seq<Column>, a: Seq<Column>, x: Column| #[trigger] (c + a.push(x)) == (c
        + a).push(x) by {
        assert((c + a.push(x)) =~= (c + a).push(x));
    }
    assert forall|c: Seq<Column>, a: Seq<Column>, n: Seq<char>, v: Option<Seq<char>>| #[trigger] (c
        + push_opt(a, n, v)) == push_opt(c + a, n, v) by {
        match v {
            Some(w) => {
                assert((c + a.push((n, w))) =~= (c + a).push((n, w)));
            },
            None => {},
        }
    }
    assert forall|c: Seq<Column>| #[trigger] (c + Seq::<Column>::empty()) == c by {
        assert((c + Seq::<Column>::empty()) =~= c);
    }
}

#[verifier::rlimit(50)]
proof fn lemma_head_appends(p: Post, c: Seq<Column>)
    ensures
        post_columns_head(p, c) == c + post_columns_head(p, Seq::empty()),
{
    lemma_append_steps();
}

#[verifier::rlimit(50)]
proof fn lemma_mid_appends(p: Post, c: Seq<Column>)
    ensures
        post_columns_mid(p, c) == c + post_columns_mid(p, Seq::empty()),
{
    lemma_append_steps();
}

#[verifier::rlimit(50)]
proof fn lemma_tail1_appends(p: Post, c: Seq<Column>)
    ensures
        post_columns_tail1(p, c) == c + post_columns_tail1(p, Seq::empty()),
{
    lemma_append_steps();
}

#[verifier::rlimit(50)]
proof fn lemma_tail2_appends(p: Post, c: Seq<Column>)
    ensures
        post_columns_tail2(p, c) == c + post_columns_tail2(p, Seq::empty()),
{
    lemma_append_steps();
}

/// The columns of a post's row are its stages' columns one after another,
/// and the first is its id.
pub proof fn law_post_columns_in_order(p: Post)
    ensures
        post_columns(p) == post_columns_head(p, Seq::empty()) + post_columns_mid(p, Seq::empty())
            + post_columns_tail1(p, Seq::empty()) + post_columns_tail2(p, Seq::empty()),
        post_columns(p)[0] == ("id"@, decimal(p.id as nat)),
{
    let h = post_columns_head(p, Seq::empty());
    lemma_mid_appends(p, h);
    let m = post_columns_mid(p, h);
    lemma_tail1_appends(p, m);
    let t = post_columns_tail1(p, m);
    lemma_tail2_appends(p, t);
    let hm = post_columns_mid(p, Seq::empty());
    let t1 = post_columns_tail1(p, Seq::empty());
    let t2 = post_columns_tail2(p, Seq::empty());
    assert(post_columns(p) =~= h + hm + t1 + t2);
    assert(h[0] == ("id"@, decimal(p.id as nat)));
    assert((h + hm + t1 + t2)[0] == h[0]);
}

/// The columns after a post's text do not depend on its author.
#[verifier::rlimit(50)]
proof fn lemma_rest_ignores_user(p: Post)
    ensures
        post_columns_mid(p, Seq::empty()) == post_columns_mid(
            Post { user: None, ..p },
            Seq::empty(),
        ),
        post_columns_tail1(p, Seq::empty()) == post_columns_tail1(
            Post { user: None, ..p },
            Seq::empty(),
        ),
        post_columns_tail2(p, Seq::empty()) == post_columns_tail2(
            Post { user: None, ..p },
            Seq::empty(),
        ),
{
}

/// The head columns of a post: the `uid` column comes after the first four
/// exactly when the post has an author.
#[verifier::rlimit(50)]
proof fn lemma_head_uid(p: Post)
    ensures
        post_columns_head(p, Seq::empty()) == post_columns_head(
            Post { user: None, ..p },
            Seq::empty(),
        ).take(4) + match p.user {
            Some(u) => seq![("uid"@, decimal(u.id as nat))],
            None => Seq::<Column>::empty(),
        } + post_columns_head(Post { user: None, ..p }, Seq::empty()).skip(4),
        post_columns_head(Post { user: None, ..p }, Seq::empty()).len() == 6,
{
    let q = Post { user: None, ..p };
    let hp = post_columns_head(p, Seq::empty());
    let hq = post_columns_head(q, Seq::empty());
    let u = match p.user {
        Some(u) => seq![("uid"@, decimal(u.id as nat))],
        None => Seq::<Column>::empty(),
    };
    assert(hp =~= hq.take(4) + u + hq.skip(4));
}

/// The `uid` column of a post's row is there exactly when the post has an
/// author, with the author's id, right after the first four columns of the
/// head; every other column is what the same post without an author has.
pub proof fn law_post_uid_column(p: Post)
    ensures
        post_columns(p) == post_columns_head(p, Seq::empty()) + post_columns_mid(
            Post { user: None, ..p },
            Seq::empty(),
        ) + post_columns_tail1(Post { user: None, ..p }, Seq::empty()) + post_columns_tail2(
            Post { user: None, ..p },
            Seq::empty(),
        ),
        post_columns_head(p, Seq::empty()) == post_columns_head(
            Post { user: None, ..p },
            Seq::empty(),
        ).take(4) + match p.user {
            Some(u) => seq![("uid"@, decimal(u.id as nat))],
            None => Seq::<Column>::empty(),
        } + post_columns_head(Post { user: None, ..p }, Seq::empty()).skip(4),
        post_columns_head(Post { user: None, ..p }, Seq::empty()).len() == 6,
{
    law_post_columns_in_order(p);
    lemma_rest_ignores_user(p);
    lemma_head_uid(p);
}

} // verus!

verus! {

/// A column of a post's row as the table of all columns has it: its name,
/// and its value when the post has one.
pub type TableEntry = (Seq<char>, Option<Seq<char>>);

/// The columns of `t` that have a value, in order.
pub open spec fn present_columns(t: Seq<TableEntry>) -> Seq<Column>
    decreases t.len(),
{
    if t.len() == 0 {
        Seq::empty()
    } else {
        push_opt(present_columns(t.drop_last()), t.last().0, t.last().1)
    }
}

/// The `head` part of the table of all the columns of a post's row.
pub open spec fn post_table_head(p: Post) -> Seq<TableEntry> {
    Seq::<TableEntry>::empty()
        .push(("id"@, Some(decimal(p.id as nat))))
        .push(("visible"@, Some(sql_quote(p.visible@))))
        .push(("created_at"@, Some(sql_quote(p.created_at@))))
        .push(("mblogid"@, Some(sql_quote(p.mblogid@))))
        .push(("uid"@, (match p.user { Some(u) => Some(decimal(u.id as nat)), None => None, })))
        .push(("text_raw"@, Some(sql_quote(p.text_raw@))))
        .push(("text"@, Some(sql_quote(p.text@))))
}

/// The `mid` part of the table of all the columns of a post's row.
pub open spec fn post_table_mid(p: Post) -> Seq<TableEntry> {
    Seq::<TableEntry>::empty()
        .push(("attitudes_status"@, Some(signed_decimal(p.attitudes_status as int))))
        .push(("share_repost_type"@, opt_int(p.share_repost_type)))
        .push(("showFeedRepost"@, Some(bool_text(p.show_feed_repost))))
        .push(("showFeedComment"@, Some(bool_text(p.show_feed_comment))))
        .push(("pictureViewerSign"@, Some(bool_text(p.picture_viewer_sign))))
        .push(("showPictureViewer"@, Some(bool_text(p.show_picture_viewer))))
        .push(("source"@, Some(sql_quote(p.source@))))
        .push(("favorited"@, Some(bool_text(p.favorited))))
        .push(("can_edit"@, Some(bool_text(p.can_edit))))
        .push(("annotations"@, Some(sql_quote(p.annotations@))))
        .push(("rid"@, opt_quoted(p.rid)))
        .push(("cardid"@, opt_quoted(p.cardid)))
        .push(("pic_ids"@, (match p.pic_ids { Some(ids) => Some(pic_ids_text(ids@)), None => None, })))
}

/// The `tail1` part of the table of all the columns of a post's row.
pub open spec fn post_table_tail1(p: Post) -> Seq<TableEntry> {
    Seq::<TableEntry>::empty()
        .push(("pic_infos"@, Some(sql_quote(p.pic_infos@))))
        .push(("geo"@, Some(sql_quote(p.geo@))))
        .push(("pic_num"@, opt_int(p.pic_num)))
        .push(("pic_focus_point"@, Some(sql_quote(p.pic_focus_point@))))
        .push(("is_paid"@, Some(bool_text(p.is_paid))))
        .push(("pic_bg_new"@, opt_quoted(p.pic_bg_new)))
        .push(("topic_struct"@, Some(sql_quote(p.topic_struct@))))
        .push(("page_info"@, Some(sql_quote(p.page_info@))))
        .push(("deleted"@, Some(bool_text(p.deleted))))
        .push(("mark"@, opt_quoted(p.mark)))
        .push(("tag_struct"@, Some(sql_quote(p.tag_struct@))))
        .push(("title"@, Some(sql_quote(p.title@))))
}

/// The `tail2` part of the table of all the columns of a post's row.
pub open spec fn post_table_tail2(p: Post) -> Seq<TableEntry> {
    Seq::<TableEntry>::empty()
        .push(("mblog_vip_type"@, opt_int(p.mblog_vip_type)))
        .push(("number_display_strategy"@, Some(sql_quote(p.number_display_strategy@))))
        .push(("reposts_count"@, opt_int(p.reposts_count)))
        .push(("comments_count"@, opt_int(p.comments_count)))
        .push(("attitudes_count"@, opt_int(p.attitudes_count)))
        .push(("continue_tag"@, Some(sql_quote(p.continue_tag@))))
        .push(("mlevel"@, opt_int(p.mlevel)))
        .push(("content_auth"@, opt_int(p.content_auth)))
        .push(("is_show_bulletin"@, opt_int(p.is_show_bulletin)))
        .push(("comment_manage_info"@, Some(sql_quote(p.comment_manage_info@))))
        .push(("repost_type"@, opt_int(p.repost_type)))
        .push(("url_struct"@, Some(sql_quote(p.url_struct@))))
        .push(("retweeted_status"@, (match p.retweeted_status { Some(r) => Some(decimal(r.id as nat)), None => None, })))
        .push(("edit_count"@, opt_int(p.edit_count)))
        .push(("mblogtype"@, opt_int(p.mblogtype)))
        .push(("region_name"@, opt_quoted(p.region_name)))
        .push(("mix_media_info"@, Some(sql_quote(p.mix_media_info@))))
        .push(("textLength"@, opt_int(p.text_length)))
        .push(("isLongText"@, Some(bool_text(p.is_long_text))))
}

/// The table of all the columns of a post's row, in order: each with its
/// name and, for the columns of optional fields, a value exactly when the
/// field is present.
pub open spec fn post_column_table(p: Post) -> Seq<TableEntry> {
    post_table_head(p) + post_table_mid(p) + post_table_tail1(p) + post_table_tail2(p)
}

proof fn lemma_present_steps()
    ensures
        forall|t: Seq<TableEntry>, e: TableEntry| #[trigger] present_columns(t.push(e))
            == push_opt(present_columns(t), e.0, e.1),
        present_columns(Seq::<TableEntry>::empty()) == Seq::<Column>::empty(),
{
    assert forall|t: Seq<TableEntry>, e: TableEntry| #[trigger] present_columns(t.push(e))
        == push_opt(present_columns(t), e.0, e.1) by {
        assert(t.push(e).drop_last() =~= t);
    }
}

#[verifier::rlimit(60)]
proof fn lemma_table_head(p: Post, c: Seq<Column>)
    ensures
        post_columns_head(p, c) == c + present_columns(post_table_head(p)),
{
    lemma_append_steps();
    lemma_present_steps();
}

#[verifier::rlimit(60)]
proof fn lemma_table_mid(p: Post, c: Seq<Column>)
    ensures
        post_columns_mid(p, c) == c + present_columns(post_table_mid(p)),
{
    lemma_append_steps();
    lemma_present_steps();
}

#[verifier::rlimit(60)]
proof fn lemma_table_tail1(p: Post, c: Seq<Column>)
    ensures
        post_columns_tail1(p, c) == c + present_columns(post_table_tail1(p)),
{
    lemma_append_steps();
    lemma_present_steps();
}

#[verifier::rlimit(60)]
proof fn lemma_table_tail2(p: Post, c: Seq<Column>)
    ensures
        post_columns_tail2(p, c) == c + present_columns(post_table_tail2(p)),
{
    lemma_append_steps();
    lemma_present_steps();
}

proof fn lemma_present_concat(a: Seq<TableEntry>, b: Seq<TableEntry>)
    ensures
        present_columns(a + b) == present_columns(a) + present_columns(b),
    decreases b.len(),
{
    lemma_append_steps();
    if b.len() == 0 {
        assert(a + b =~= a);
    } else {
        lemma_present_concat(a, b.drop_last());
        assert((a + b).drop_last() =~= a + b.drop_last());
        assert((a + b).last() == b.last());
    }
}

/// The row a post is stored as lists, in order, exactly the columns of the
/// table of all columns that have a value: the id first, the required
/// columns always, and the column of each optional field (`uid`,
/// `share_repost_type`, `rid`, `cardid`, `pic_ids`, `pic_num`, `pic_bg_new`,
/// `mark`, the counts, `retweeted_status`, `region_name`, ...) exactly when
/// the field is present; each name comes with its value, texts quoted.
pub proof fn law_post_sql_columns(p: Post)
    ensures
        post_columns(p) == present_columns(post_column_table(p)),
        post_column_table(p).len() == 51,
        post_column_table(p)[0] == ("id"@, Some(decimal(p.id as nat))),
        post_columns(p)[0] == ("id"@, decimal(p.id as nat)),
{
    let th = post_table_head(p);
    let tm = post_table_mid(p);
    let t1 = post_table_tail1(p);
    let t2 = post_table_tail2(p);
    lemma_table_head(p, Seq::empty());
    let h = post_columns_head(p, Seq::empty());
    lemma_table_mid(p, h);
    let m = post_columns_mid(p, h);
    lemma_table_tail1(p, m);
    let x = post_columns_tail1(p, m);
    lemma_table_tail2(p, x);
    lemma_append_steps();
    lemma_present_concat(th, tm);
    lemma_present_concat(th + tm, t1);
    lemma_present_concat(th + tm + t1, t2);
    assert(Seq::<Column>::empty() + present_columns(th) == present_columns(th));
    assert(present_columns(th) + present_columns(tm) + present_columns(t1) + present_columns(t2)
        == present_columns(post_column_table(p)));
    law_post_columns_in_order(p);
    assert(post_column_table(p)[0] == th[0]);
}

} // verus!
