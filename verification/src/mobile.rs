//! Posts as the mobile site returns them, brought to the form the desktop
//! site uses, so that one decoder reads both.

use vstd::prelude::*;
use vstd::string::*;
use crate::json_record::{
    first_key_index, json_view, lemma_array_view, lemma_first_index, lemma_lookup_set,
    lemma_object_view, members_view, obj_get_clone, obj_set, obj_take, or_null, v_lookup, v_set,
    JsonField, JsonView,
};
use crate::login::{parse_i64, spec_parse_i64};

verus! {

/// Why a mobile post could not be converted.
#[derive(Debug, Clone, Copy, PartialEq, Eq)]
pub enum MobilePostError {
    /// Its `id` is not a string.
    IdNotString,
    /// Its `id` is not a number.
    BadId,
    /// One of its pictures has no string `pid`.
    PidNotString,
}

/// The member `key` of `v` when `v` is an object, as reading `v[key]` finds
/// it.
pub open spec fn v_get(v: JsonView, key: Seq<char>) -> Option<JsonView> {
    match v {
        JsonView::Object(mv) => v_lookup(mv, key),
        _ => None,
    }
}

/// The JSON number of `i`.
pub open spec fn int_view(i: i64) -> JsonView {
    if i < 0 {
        JsonView::NegInt(i)
    } else {
        JsonView::PosInt(i as u64)
    }
}

/// A link of a mobile post in the desktop form.
pub open spec fn url_struct_view(obj: JsonView) -> JsonView {
    let t = or_null(v_get(obj, "url_ori"@));
    let info = or_null(v_get(obj, "info"@));
    JsonView::Object(
        seq![
            ("ori_url"@, t),
            ("result"@, or_null(v_get(info, "result"@))),
            ("url_long"@, or_null(v_get(info, "url_long"@))),
            ("url_short"@, or_null(v_get(info, "url_short"@))),
            ("url_title"@, t),
            ("url_type"@, or_null(v_get(info, "type"@))),
        ],
    )
}

/// A link of a mobile post can be read by name: it is an object or `null`,
/// and so is its `info`.
pub open spec fn url_object_indexable(obj: JsonView) -> bool {
    &&& (obj is Object || obj is Null)
    &&& (v_get(obj, "info"@) matches Some(i) ==> (i is Object || i is Null))
}

/// The id of a picture of a mobile post.
pub open spec fn pid_of(p: JsonView) -> Option<Seq<char>> {
    match v_get(p, "pid"@) {
        Some(JsonView::Str(s)) => Some(s),
        _ => None,
    }
}

/// Every picture has a string id.
pub open spec fn all_pids(ps: Seq<JsonView>) -> bool {
    forall|i: int| 0 <= i < ps.len() ==> (#[trigger] pid_of(ps[i])) is Some
}

/// The ids of the pictures.
pub open spec fn pid_views(ps: Seq<JsonView>) -> Seq<JsonView> {
    ps.map_values(|p: JsonView| JsonView::Str(pid_of(p)->0))
}

/// The description of a picture of a mobile post in the desktop form.
pub open spec fn pic_info_view(p: JsonView, pid: Seq<char>) -> JsonView {
    JsonView::Object(
        seq![
            ("bmiddle"@, JsonView::Object(seq![("url"@, or_null(v_get(p, "url"@)))])),
            ("large"@, or_null(v_get(p, "large"@))),
            ("pic_id"@, JsonView::Str(pid)),
            ("type"@, JsonView::Str("pic"@)),
        ],
    )
}

/// The descriptions of the pictures, by id; a later picture with the same
/// id replaces an earlier one.
pub open spec fn pic_infos_view(ps: Seq<JsonView>) -> Seq<(Seq<char>, JsonView)>
    decreases ps.len(),
{
    if ps.len() == 0 {
        Seq::empty()
    } else {
        let p = ps.last();
        let id = pid_of(p)->0;
        v_set(pic_infos_view(ps.drop_last()), id, pic_info_view(p, id))
    }
}

/// The members of a mobile post with the id `id`, in the desktop form: the
/// id as a number, `bid` moved to `mblogid`, `text` copied to `text_raw`,
/// `favorited` set, the links moved from `url_objects` to `url_struct`, and
/// the pictures from `pics` to `pic_ids` and `pic_infos`.
pub open spec fn spec_mobile2pc(mv: Seq<(Seq<char>, JsonView)>, id: i64) -> Result<
    Seq<(Seq<char>, JsonView)>,
    MobilePostError,
> {
    let m1 = v_set(mv, "id"@, int_view(id));
    let m2 = v_set(v_set(m1, "bid"@, JsonView::Null), "mblogid"@, or_null(v_lookup(m1, "bid"@)));
    let m3 = v_set(m2, "text_raw"@, or_null(v_lookup(m2, "text"@)));
    let m4 = v_set(m3, "favorited"@, JsonView::Bool(true));
    let uo = or_null(v_lookup(m4, "url_objects"@));
    let m5 = v_set(m4, "url_objects"@, JsonView::Null);
    let m6 = match uo {
        JsonView::Array(os) => v_set(
            m5,
            "url_struct"@,
            JsonView::Array(os.map_values(|o: JsonView| url_struct_view(o))),
        ),
        _ => m5,
    };
    let pics = or_null(v_lookup(m6, "pics"@));
    let m7 = v_set(m6, "pics"@, JsonView::Null);
    match pics {
        JsonView::Array(ps) => if all_pids(ps) {
            Ok(
                v_set(
                    v_set(m7, "pic_ids"@, JsonView::Array(pid_views(ps))),
                    "pic_infos"@,
                    JsonView::Object(pic_infos_view(ps)),
                ),
            )
        } else {
            Err(MobilePostError::PidNotString)
        },
        _ => Ok(m7),
    }
}

/// The links of a mobile post can be read by name.
pub open spec fn mobile_indexable(post: JsonView) -> bool {
    match v_get(post, "url_objects"@) {
        Some(JsonView::Array(os)) => forall|i: int|
            0 <= i < os.len() ==> url_object_indexable(#[trigger] os[i]),
        _ => true,
    }
}

/// A mobile post in the desktop form: an error when its `id` is not a
/// string holding a number, or when a picture has no string id.
pub open spec fn spec_convert_mobile_post(post: JsonView) -> Result<JsonView, MobilePostError> {
    match post {
        JsonView::Object(mv) => match v_lookup(mv, "id"@) {
            Some(JsonView::Str(s)) => match spec_parse_i64(s) {
                Some(id) => match spec_mobile2pc(mv, id) {
                    Ok(out) => Ok(JsonView::Object(out)),
                    Err(e) => Err(e),
                },
                None => Err(MobilePostError::BadId),
            },
            _ => Err(MobilePostError::IdNotString),
        },
        _ => Err(MobilePostError::IdNotString),
    }
}

/// The members of `v` when it is an object, none when it is `null`.
fn object_members(v: JsonField) -> (res: Vec<(String, JsonField)>)
    requires
        v is Object || v is Null,
    ensures
        forall|k: Seq<char>| v_lookup(members_view(res@), k) == v_get(json_view(v), k),
{
    match v {
        JsonField::Object(ms) => {
            proof {
                lemma_object_view(ms);
            }
            ms
        },
        _ => {
            let res: Vec<(String, JsonField)> = Vec::new();
            assert forall|k: Seq<char>| v_lookup(members_view(res@), k) == v_get(json_view(v), k) by {
                assert(members_view(res@).len() == 0);
            }
            res
        },
    }
}

/// An object with the members `ms` as `JsonField`, whose value is `mv`.
proof fn lemma_built_object(ms: Vec<(String, JsonField)>, mv: Seq<(Seq<char>, JsonView)>)
    requires
        members_view(ms@) =~= mv,
    ensures
        json_view(JsonField::Object(ms)) == JsonView::Object(mv),
{
    lemma_object_view(ms);
}

/// The lengths and first letters of the member names of a link, which
/// tell them apart.
proof fn lemma_link_names()
    ensures
        "url_ori"@.len() == 7 && "url_ori"@[0] == 'u',
        "info"@.len() == 4 && "info"@[0] == 'i',
        "url_short"@.len() == 9 && "url_short"@[0] == 'u',
        "url_long"@.len() == 8 && "url_long"@[0] == 'u',
        "type"@.len() == 4 && "type"@[0] == 't',
        "result"@.len() == 6 && "result"@[0] == 'r',
{
    reveal_strlit("url_ori");
    reveal_strlit("info");
    reveal_strlit("url_short");
    reveal_strlit("url_long");
    reveal_strlit("type");
    reveal_strlit("result");
}

/// A link of a mobile post in the desktop form.
fn url_struct_of(obj: JsonField) -> (res: JsonField)
    requires
        url_object_indexable(json_view(obj)),
    ensures
        json_view(res) == url_struct_view(json_view(obj)),
{
    let ghost ov = json_view(obj);
    proof {
        lemma_link_names();
        if obj is Object {
            lemma_object_view(obj->Object_0);
        }
    }
    let mut oms = object_members(obj);
    let ghost om0 = members_view(oms@);
    let title = obj_get_clone(&oms, "url_ori");
    let ori = obj_take(&mut oms, "url_ori");
    proof {
        lemma_lookup_set(om0, "url_ori"@, JsonView::Null, "info"@);
    }
    let info = obj_take(&mut oms, "info");
    let mut ims = object_members(info);
    let ghost im0 = members_view(ims@);
    let short = obj_take(&mut ims, "url_short");
    let ghost im1 = members_view(ims@);
    let long = obj_take(&mut ims, "url_long");
    let ghost im2 = members_view(ims@);
    let ty = obj_take(&mut ims, "type");
    let result = obj_take(&mut ims, "result");
    proof {
        lemma_lookup_set(im0, "url_short"@, JsonView::Null, "url_long"@);
        lemma_lookup_set(im0, "url_short"@, JsonView::Null, "type"@);
        lemma_lookup_set(im0, "url_short"@, JsonView::Null, "result"@);
        lemma_lookup_set(im1, "url_long"@, JsonView::Null, "type"@);
        lemma_lookup_set(im1, "url_long"@, JsonView::Null, "result"@);
        lemma_lookup_set(im2, "type"@, JsonView::Null, "result"@);
    }
    let mut out: Vec<(String, JsonField)> = Vec::new();
    out.push((String::from_str("ori_url"), ori));
    out.push((String::from_str("result"), result));
    out.push((String::from_str("url_long"), long));
    out.push((String::from_str("url_short"), short));
    out.push((String::from_str("url_title"), title));
    out.push((String::from_str("url_type"), ty));
    proof {
        lemma_built_object(out, url_struct_view(ov)->Object_0);
    }
    JsonField::Object(out)
}

/// The links of a mobile post in the desktop form.
fn url_structs(objs: Vec<JsonField>) -> (res: Vec<JsonField>)
    requires
        forall|i: int| 0 <= i < objs@.len() ==> url_object_indexable(#[trigger] json_view(objs@[i])),
    ensures
        res@.map_values(|x: JsonField| json_view(x)) == objs@.map_values(|x: JsonField| json_view(x)).map_values(
            |o: JsonView| url_struct_view(o),
        ),
{
    let ghost ov = objs@;
    let mut objs = objs;
    let mut out: Vec<JsonField> = Vec::new();
    let mut i: usize = 0;
    let n = objs.len();
    while i < n
        invariant
            n == ov.len(),
            i <= n,
            objs@.len() == n,
            forall|k: int| i <= k < n ==> objs@[k] == ov[k],
            forall|k: int| 0 <= k < n ==> url_object_indexable(#[trigger] json_view(ov[k])),
            out@.len() == i,
            forall|k: int| 0 <= k < i ==> json_view(#[trigger] out@[k]) == url_struct_view(json_view(ov[k])),
        decreases n - i,
    {
        let mut o = JsonField::Null;
        objs.set_and_swap(i, &mut o);
        assert(o == ov[i as int]);
        out.push(url_struct_of(o));
        i = i + 1;
    }
    assert(out@.map_values(|x: JsonField| json_view(x)) =~= ov.map_values(|x: JsonField| json_view(x)).map_values(
        |o: JsonView| url_struct_view(o),
    ));
    out
}

/// The id of a picture of a mobile post, when it has a string one.
fn pid_text(p: &JsonField) -> (res: Option<String>)
    ensures
        match res {
            Some(s) => pid_of(json_view(*p)) == Some(s@),
            None => pid_of(json_view(*p)) is None,
        },
{
    match p {
        JsonField::Object(m) => {
            proof {
                lemma_object_view(*m);
            }
            match first_key_index(m, "pid") {
                Some(i) => match &m[i].1 {
                    JsonField::Str(s) => Some(s.clone()),
                    _ => None,
                },
                None => None,
            }
        },
        _ => None,
    }
}

/// The description of the picture `p`, whose id is `pid`.
fn pic_info_of(p: &JsonField, pid: &String) -> (res: JsonField)
    ensures
        json_view(res) == pic_info_view(json_view(*p), pid@),
{
    let (url, large) = match p {
        JsonField::Object(m) => {
            proof {
                lemma_object_view(*m);
            }
            (obj_get_clone(m, "url"), obj_get_clone(m, "large"))
        },
        _ => (JsonField::Null, JsonField::Null),
    };
    let mut bm: Vec<(String, JsonField)> = Vec::new();
    bm.push((String::from_str("url"), url));
    let ghost bmv = JsonView::Object(seq![("url"@, or_null(v_get(json_view(*p), "url"@)))]);
    proof {
        lemma_built_object(bm, bmv->Object_0);
    }
    let mut out: Vec<(String, JsonField)> = Vec::new();
    out.push((String::from_str("bmiddle"), JsonField::Object(bm)));
    out.push((String::from_str("large"), large));
    out.push((String::from_str("pic_id"), JsonField::Str(pid.clone())));
    out.push((String::from_str("type"), JsonField::Str(String::from_str("pic"))));
    proof {
        lemma_built_object(out, pic_info_view(json_view(*p), pid@)->Object_0);
    }
    JsonField::Object(out)
}

/// The ids and the descriptions of the pictures of a mobile post; an error
/// when one of them has no string id.
fn pictures_of(ps: &Vec<JsonField>) -> (res: Result<(Vec<JsonField>, Vec<(String, JsonField)>), MobilePostError>)
    ensures
        match res {
            Ok((ids, infos)) => {
                let pv = ps@.map_values(|x: JsonField| json_view(x));
                &&& all_pids(pv)
                &&& ids@.map_values(|x: JsonField| json_view(x)) == pid_views(pv)
                &&& members_view(infos@) == pic_infos_view(pv)
            },
            Err(e) => e == MobilePostError::PidNotString && !all_pids(
                ps@.map_values(|x: JsonField| json_view(x)),
            ),
        },
{
    let ghost pv = ps@.map_values(|x: JsonField| json_view(x));
    let mut ids: Vec<JsonField> = Vec::new();
    let mut i: usize = 0;
    while i < ps.len()
        invariant
            i <= ps@.len(),
            pv == ps@.map_values(|x: JsonField| json_view(x)),
            ids@.len() == i,
            forall|k: int| 0 <= k < i ==> (#[trigger] pid_of(pv[k])) is Some,
            forall|k: int| 0 <= k < i ==> json_view(#[trigger] ids@[k]) == JsonView::Str(pid_of(pv[k])->0),
        decreases ps.len() - i,
    {
        match pid_text(&ps[i]) {
            Some(s) => {
                ids.push(JsonField::Str(s));
            },
            None => {
                assert(pid_of(pv[i as int]) is None);
                return Err(MobilePostError::PidNotString);
            },
        }
        i = i + 1;
    }
    assert(ids@.map_values(|x: JsonField| json_view(x)) =~= pid_views(pv));
    let mut infos: Vec<(String, JsonField)> = Vec::new();
    let mut i: usize = 0;
    assert(members_view(infos@) =~= pic_infos_view(pv.take(0)));
    while i < ps.len()
        invariant
            i <= ps@.len(),
            pv == ps@.map_values(|x: JsonField| json_view(x)),
            all_pids(pv),
            members_view(infos@) == pic_infos_view(pv.take(i as int)),
        decreases ps.len() - i,
    {
        assert(pv[i as int] == json_view(ps@[i as int]));
        assert(pid_of(pv[i as int]) is Some);
        let id = pid_text(&ps[i]).unwrap();
        let info = pic_info_of(&ps[i], &id);
        obj_set(&mut infos, id.as_str(), info);
        proof {
            assert(pv.take(i + 1).drop_last() =~= pv.take(i as int));
            assert(pv.take(i + 1).last() == pv[i as int]);
        }
        i = i + 1;
    }
    assert(pv.take(ps@.len() as int) =~= pv);
    Ok((ids, infos))
}

/// The members of a mobile post once its id, `mblogid`, `text_raw`,
/// `favorited` and `url_struct` are set and its `pics` taken out: where the
/// conversion stands when a picture has no string id.
pub open spec fn mobile2pc_before_pics(mv: Seq<(Seq<char>, JsonView)>, id: i64) -> Seq<
    (Seq<char>, JsonView),
> {
    let m1 = v_set(mv, "id"@, int_view(id));
    let m2 = v_set(v_set(m1, "bid"@, JsonView::Null), "mblogid"@, or_null(v_lookup(m1, "bid"@)));
    let m3 = v_set(m2, "text_raw"@, or_null(v_lookup(m2, "text"@)));
    let m4 = v_set(m3, "favorited"@, JsonView::Bool(true));
    let uo = or_null(v_lookup(m4, "url_objects"@));
    let m5 = v_set(m4, "url_objects"@, JsonView::Null);
    let m6 = match uo {
        JsonView::Array(os) => v_set(
            m5,
            "url_struct"@,
            JsonView::Array(os.map_values(|o: JsonView| url_struct_view(o))),
        ),
        _ => m5,
    };
    v_set(m6, "pics"@, JsonView::Null)
}

/// What a post is after its conversion is tried in place: the converted
/// post; the post as it was when its id is not a string holding a number;
/// and the post converted up to its pictures when a picture has no string
/// id.
pub open spec fn spec_mobile_post_after(post: JsonView) -> JsonView {
    match post {
        JsonView::Object(mv) => match v_lookup(mv, "id"@) {
            Some(JsonView::Str(s)) => match spec_parse_i64(s) {
                Some(id) => match spec_mobile2pc(mv, id) {
                    Ok(out) => JsonView::Object(out),
                    Err(_) => JsonView::Object(mobile2pc_before_pics(mv, id)),
                },
                None => post,
            },
            _ => post,
        },
        _ => post,
    }
}

/// Brings a post of the mobile site to the form of the desktop site, in
/// place: its string `id` becomes a number, `bid` moves to `mblogid`,
/// `text` is copied to `text_raw`, it is marked `favorited`, its
/// `url_objects` become `url_struct` and its `pics` become `pic_ids` and
/// `pic_infos`. Fails when the `id` is not a string holding a number, or a
/// picture has no string id; the post is then left as far as the
/// conversion got.
pub fn convert_mobile2pc_post_non_rec(post: &mut JsonField) -> (res: Result<(), MobilePostError>)
    requires
        mobile_indexable(json_view(*old(post))),
    ensures
        json_view(*final(post)) == spec_mobile_post_after(json_view(*old(post))),
        match res {
            Ok(()) => spec_convert_mobile_post(json_view(*old(post))) == Ok::<
                JsonView,
                MobilePostError,
            >(json_view(*final(post))),
            Err(e) => spec_convert_mobile_post(json_view(*old(post))) == Err::<
                JsonView,
                MobilePostError,
            >(e),
        },
{
    let ghost pv = json_view(*post);
    proof {
        lemma_member_names();
    }
    let mut taken = JsonField::Null;
    std::mem::swap(&mut taken, post);
    let mut ms = match taken {
        JsonField::Object(ms) => ms,
        other => {
            *post = other;
            return Err(MobilePostError::IdNotString);
        },
    };
    proof {
        lemma_object_view(ms);
    }
    let ghost mv = members_view(ms@);
    let id_text = match first_key_index(&ms, "id") {
        Some(i) => match &ms[i].1 {
            JsonField::Str(s) => s.clone(),
            _ => {
                *post = JsonField::Object(ms);
                return Err(MobilePostError::IdNotString);
            },
        },
        None => {
            *post = JsonField::Object(ms);
            return Err(MobilePostError::IdNotString);
        },
    };
    let id = match parse_i64(id_text.as_str()) {
        Some(id) => id,
        None => {
            *post = JsonField::Object(ms);
            return Err(MobilePostError::BadId);
        },
    };
    let num = if id < 0 {
        JsonField::NegInt(id)
    } else {
        JsonField::PosInt(id as u64)
    };
    obj_set(&mut ms, "id", num);
    let ghost m1 = members_view(ms@);
    let bid = obj_take(&mut ms, "bid");
    obj_set(&mut ms, "mblogid", bid);
    let ghost m2 = members_view(ms@);
    let text = obj_get_clone(&ms, "text");
    obj_set(&mut ms, "text_raw", text);
    obj_set(&mut ms, "favorited", JsonField::Bool(true));
    let ghost m4 = members_view(ms@);
    proof {
        lemma_lookup_set(mv, "id"@, int_view(id), "url_objects"@);
        lemma_lookup_set(m1, "bid"@, JsonView::Null, "url_objects"@);
        lemma_lookup_set(v_set(m1, "bid"@, JsonView::Null), "mblogid"@, or_null(v_lookup(m1, "bid"@)), "url_objects"@);
        lemma_lookup_set(m2, "text_raw"@, or_null(v_lookup(m2, "text"@)), "url_objects"@);
        lemma_lookup_set(v_set(m2, "text_raw"@, or_null(v_lookup(m2, "text"@))), "favorited"@, JsonView::Bool(true), "url_objects"@);
        assert(v_lookup(m4, "url_objects"@) == v_get(pv, "url_objects"@));
    }
    let uo = obj_take(&mut ms, "url_objects");
    match uo {
        JsonField::Array(objs) => {
            proof {
                lemma_array_view(objs);
                assert forall|i: int| 0 <= i < objs@.len() implies url_object_indexable(
                    #[trigger] json_view(objs@[i]),
                ) by {
                    let os = json_view(JsonField::Array(objs))->Array_0;
                    assert(os[i] == json_view(objs@[i]));
                }
            }
            let structs = url_structs(objs);
            let arr = JsonField::Array(structs);
            proof {
                lemma_array_view(structs);
            }
            obj_set(&mut ms, "url_struct", arr);
        },
        _ => {},
    }
    let pics = obj_take(&mut ms, "pics");
    match pics {
        JsonField::Array(ps) => {
            proof {
                lemma_array_view(ps);
            }
            match pictures_of(&ps) {
                Ok((ids, infos)) => {
                    proof {
                        lemma_array_view(ids);
                        lemma_object_view(infos);
                    }
                    obj_set(&mut ms, "pic_ids", JsonField::Array(ids));
                    obj_set(&mut ms, "pic_infos", JsonField::Object(infos));
                },
                Err(e) => {
                    proof {
                        lemma_object_view(ms);
                    }
                    assert(members_view(ms@) == mobile2pc_before_pics(mv, id));
                    *post = JsonField::Object(ms);
                    return Err(e);
                },
            }
        },
        _ => {},
    }
    proof {
        lemma_object_view(ms);
    }
    *post = JsonField::Object(ms);
    Ok(())
}


/// A mobile post in the desktop form, together with the post it reposts,
/// when that is an object.
pub open spec fn spec_convert_mobile_post_rec(post: JsonView) -> Result<JsonView, MobilePostError> {
    match spec_convert_mobile_post(post) {
        Ok(JsonView::Object(m)) => match v_lookup(m, "retweeted_status"@) {
            Some(JsonView::Object(r)) => match spec_convert_mobile_post(JsonView::Object(r)) {
                Ok(rv) => Ok(JsonView::Object(v_set(m, "retweeted_status"@, rv))),
                Err(e) => Err(e),
            },
            _ => Ok(JsonView::Object(m)),
        },
        other => other,
    }
}

/// The lengths and first letters of the member names the conversion uses,
/// which tell them apart.
proof fn lemma_member_names()
    ensures
        "id"@.len() == 2 && "id"@[0] == 'i',
        "bid"@.len() == 3 && "bid"@[0] == 'b',
        "mblogid"@.len() == 7 && "mblogid"@[0] == 'm',
        "text"@.len() == 4 && "text"@[0] == 't',
        "text_raw"@.len() == 8 && "text_raw"@[0] == 't',
        "favorited"@.len() == 9 && "favorited"@[0] == 'f',
        "url_objects"@.len() == 11 && "url_objects"@[0] == 'u',
        "url_struct"@.len() == 10 && "url_struct"@[0] == 'u',
        "pics"@.len() == 4 && "pics"@[0] == 'p',
        "pic_ids"@.len() == 7 && "pic_ids"@[0] == 'p',
        "pic_infos"@.len() == 9 && "pic_infos"@[0] == 'p',
        "retweeted_status"@.len() == 16 && "retweeted_status"@[0] == 'r',
{
    reveal_strlit("id");
    reveal_strlit("bid");
    reveal_strlit("mblogid");
    reveal_strlit("text");
    reveal_strlit("text_raw");
    reveal_strlit("favorited");
    reveal_strlit("url_objects");
    reveal_strlit("url_struct");
    reveal_strlit("pics");
    reveal_strlit("pic_ids");
    reveal_strlit("pic_infos");
    reveal_strlit("retweeted_status");
}

/// The names of the members the conversion sets.
pub open spec fn converted_name(q: Seq<char>) -> bool {
    ||| q == "id"@
    ||| q == "bid"@
    ||| q == "mblogid"@
    ||| q == "text_raw"@
    ||| q == "favorited"@
    ||| q == "url_objects"@
    ||| q == "url_struct"@
    ||| q == "pics"@
    ||| q == "pic_ids"@
    ||| q == "pic_infos"@
}

/// The conversion of a mobile post leaves every member it does not set as
/// it was, and marks the post as a favorite.
pub proof fn law_mobile_keeps_other_members(mv: Seq<(Seq<char>, JsonView)>, id: i64, q: Seq<char>)
    requires
        !converted_name(q),
    ensures
        spec_mobile2pc(mv, id) matches Ok(m) ==> v_lookup(m, q) == v_lookup(mv, q) && v_lookup(
            m,
            "favorited"@,
        ) == Some(JsonView::Bool(true)),
{
    lemma_member_names();
    let m1 = v_set(mv, "id"@, int_view(id));
    lemma_lookup_set(mv, "id"@, int_view(id), q);
    let mb = v_set(m1, "bid"@, JsonView::Null);
    lemma_lookup_set(m1, "bid"@, JsonView::Null, q);
    let m2 = v_set(mb, "mblogid"@, or_null(v_lookup(m1, "bid"@)));
    lemma_lookup_set(mb, "mblogid"@, or_null(v_lookup(m1, "bid"@)), q);
    let m3 = v_set(m2, "text_raw"@, or_null(v_lookup(m2, "text"@)));
    lemma_lookup_set(m2, "text_raw"@, or_null(v_lookup(m2, "text"@)), q);
    let m4 = v_set(m3, "favorited"@, JsonView::Bool(true));
    lemma_lookup_set(m3, "favorited"@, JsonView::Bool(true), q);
    lemma_lookup_set(m3, "favorited"@, JsonView::Bool(true), "favorited"@);
    let uo = or_null(v_lookup(m4, "url_objects"@));
    let m5 = v_set(m4, "url_objects"@, JsonView::Null);
    lemma_lookup_set(m4, "url_objects"@, JsonView::Null, q);
    lemma_lookup_set(m4, "url_objects"@, JsonView::Null, "favorited"@);
    let m6 = match uo {
        JsonView::Array(os) => v_set(
            m5,
            "url_struct"@,
            JsonView::Array(os.map_values(|o: JsonView| url_struct_view(o))),
        ),
        _ => m5,
    };
    if let JsonView::Array(os) = uo {
        lemma_lookup_set(m5, "url_struct"@, JsonView::Array(os.map_values(|o: JsonView| url_struct_view(o))), q);
        lemma_lookup_set(m5, "url_struct"@, JsonView::Array(os.map_values(|o: JsonView| url_struct_view(o))), "favorited"@);
    }
    let pics = or_null(v_lookup(m6, "pics"@));
    let m7 = v_set(m6, "pics"@, JsonView::Null);
    lemma_lookup_set(m6, "pics"@, JsonView::Null, q);
    lemma_lookup_set(m6, "pics"@, JsonView::Null, "favorited"@);
    if let JsonView::Array(ps) = pics {
        let m8 = v_set(m7, "pic_ids"@, JsonView::Array(pid_views(ps)));
        lemma_lookup_set(m7, "pic_ids"@, JsonView::Array(pid_views(ps)), q);
        lemma_lookup_set(m8, "pic_infos"@, JsonView::Object(pic_infos_view(ps)), q);
        lemma_lookup_set(m7, "pic_ids"@, JsonView::Array(pid_views(ps)), "favorited"@);
        lemma_lookup_set(m8, "pic_infos"@, JsonView::Object(pic_infos_view(ps)), "favorited"@);
    }
}

/// What a post is after the conversion of it and of the post it reposts
/// is tried in place: when its own conversion fails, as far as that got;
/// otherwise the converted post, whose reposted object is as far as its
/// conversion got.
pub open spec fn spec_mobile_post_rec_after(post: JsonView) -> JsonView {
    match spec_convert_mobile_post(post) {
        Ok(JsonView::Object(m)) => match v_lookup(m, "retweeted_status"@) {
            Some(JsonView::Object(r)) => JsonView::Object(
                v_set(m, "retweeted_status"@, spec_mobile_post_after(JsonView::Object(r))),
            ),
            _ => JsonView::Object(m),
        },
        Ok(v) => v,
        Err(_) => spec_mobile_post_after(post),
    }
}

/// Brings a post of the mobile site, and the post it reposts when that is
/// an object, to the form of the desktop site, in place.
pub fn convert_mobile2pc_post(post: &mut JsonField) -> (res: Result<(), MobilePostError>)
    requires
        mobile_indexable(json_view(*old(post))),
        v_get(json_view(*old(post)), "retweeted_status"@) matches Some(r) ==> (r is Object
            ==> mobile_indexable(r)),
    ensures
        json_view(*final(post)) == spec_mobile_post_rec_after(json_view(*old(post))),
        match res {
            Ok(()) => spec_convert_mobile_post_rec(json_view(*old(post))) == Ok::<
                JsonView,
                MobilePostError,
            >(json_view(*final(post))),
            Err(e) => spec_convert_mobile_post_rec(json_view(*old(post))) == Err::<
                JsonView,
                MobilePostError,
            >(e),
        },
{
    let ghost pv = json_view(*post);
    proof {
        lemma_member_names();
        if let JsonView::Object(mv) = pv {
            if let Some(JsonView::Str(s)) = v_lookup(mv, "id"@) {
                if let Some(id) = spec_parse_i64(s) {
                    law_mobile_keeps_other_members(mv, id, "retweeted_status"@);
                }
            }
        }
    }
    convert_mobile2pc_post_non_rec(post)?;
    let mut out = JsonField::Null;
    std::mem::swap(&mut out, post);
    let mut ms = match out {
        JsonField::Object(ms) => ms,
        other => {
            proof {
                lemma_object_view_not(other);
            }
            *post = other;
            return Ok(());
        },
    };
    proof {
        lemma_object_view(ms);
    }
    match first_key_index(&ms, "retweeted_status") {
        Some(i) => {
            let is_object = match &ms[i].1 {
                JsonField::Object(_) => true,
                _ => false,
            };
            if is_object {
                let ghost before = members_view(ms@);
                proof {
                    lemma_first_index(before, "retweeted_status"@);
                }
                let mut slot = (String::new(), JsonField::Null);
                ms.set_and_swap(i, &mut slot);
                let (key, mut r) = slot;
                assert(key@ == "retweeted_status"@);
                let inner = convert_mobile2pc_post_non_rec(&mut r);
                let ghost cv = json_view(r);
                let mut tmp = (key, r);
                ms.set_and_swap(i, &mut tmp);
                proof {
                    assert(members_view(ms@) =~= v_set(before, "retweeted_status"@, cv));
                    lemma_object_view(ms);
                }
                *post = JsonField::Object(ms);
                return inner;
            }
        },
        None => {},
    }
    *post = JsonField::Object(ms);
    Ok(())
}

/// A value that is not an object does not view as one.
proof fn lemma_object_view_not(v: JsonField)
    requires
        !(v is Object),
    ensures
        !(json_view(v) is Object),
{
}

} // verus!

verus! {

/// Converting a mobile post whose `pics` is an array of pictures, each with
/// a string `pid`, keeps one id per picture, in order: the converted post's
/// `pic_ids` is an array as long as `pics` whose `i`-th element is the `pid`
/// of the `i`-th picture.
pub proof fn law_mobile_pic_ids(mv: Seq<(Seq<char>, JsonView)>, id: i64, ps: Seq<JsonView>)
    requires
        v_lookup(mv, "pics"@) == Some(JsonView::Array(ps)),
        forall|i: int| 0 <= i < ps.len() ==> (#[trigger] v_get(ps[i], "pid"@)) matches Some(
            JsonView::Str(_),
        ),
    ensures
        spec_mobile2pc(mv, id) matches Ok(out) && v_lookup(out, "pic_ids"@) matches Some(
            JsonView::Array(ids),
        ) && ids.len() == ps.len() && forall|i: int|
            0 <= i < ps.len() ==> v_get(ps[i], "pid"@) == Some(#[trigger] ids[i]),
{
    lemma_member_names();
    let q = "pics"@;
    let m1 = v_set(mv, "id"@, int_view(id));
    lemma_lookup_set(mv, "id"@, int_view(id), q);
    let mb = v_set(m1, "bid"@, JsonView::Null);
    lemma_lookup_set(m1, "bid"@, JsonView::Null, q);
    let m2 = v_set(mb, "mblogid"@, or_null(v_lookup(m1, "bid"@)));
    lemma_lookup_set(mb, "mblogid"@, or_null(v_lookup(m1, "bid"@)), q);
    let m3 = v_set(m2, "text_raw"@, or_null(v_lookup(m2, "text"@)));
    lemma_lookup_set(m2, "text_raw"@, or_null(v_lookup(m2, "text"@)), q);
    let m4 = v_set(m3, "favorited"@, JsonView::Bool(true));
    lemma_lookup_set(m3, "favorited"@, JsonView::Bool(true), q);
    let uo = or_null(v_lookup(m4, "url_objects"@));
    let m5 = v_set(m4, "url_objects"@, JsonView::Null);
    lemma_lookup_set(m4, "url_objects"@, JsonView::Null, q);
    let m6 = match uo {
        JsonView::Array(os) => v_set(
            m5,
            "url_struct"@,
            JsonView::Array(os.map_values(|o: JsonView| url_struct_view(o))),
        ),
        _ => m5,
    };
    if let JsonView::Array(os) = uo {
        lemma_lookup_set(m5, "url_struct"@, JsonView::Array(os.map_values(|o: JsonView| url_struct_view(o))), q);
    }
    assert(v_lookup(m6, q) == Some(JsonView::Array(ps)));
    assert(all_pids(ps)) by {
        assert forall|i: int| 0 <= i < ps.len() implies (#[trigger] pid_of(ps[i])) is Some by {
            assert(v_get(ps[i], "pid"@) matches Some(JsonView::Str(_)));
        }
    }
    let m7 = v_set(m6, "pics"@, JsonView::Null);
    let ids = pid_views(ps);
    let m8 = v_set(m7, "pic_ids"@, JsonView::Array(ids));
    lemma_lookup_set(m7, "pic_ids"@, JsonView::Array(ids), "pic_ids"@);
    lemma_lookup_set(m8, "pic_infos"@, JsonView::Object(pic_infos_view(ps)), "pic_ids"@);
    assert forall|i: int| 0 <= i < ps.len() implies v_get(ps[i], "pid"@) == Some(#[trigger] ids[i]) by {
        assert(v_get(ps[i], "pid"@) matches Some(JsonView::Str(_)));
    }
}

} // verus!
