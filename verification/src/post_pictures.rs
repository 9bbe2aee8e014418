//! Which picture URLs a post shows, in the definition the user chose.

use vstd::prelude::*;
use vstd::string::*;
use crate::json_record::JsonField;
use crate::login::{field, get_field, get_str_field, str_field};
use crate::pattern::views;

verus! {

/// The picture sizes to try, best first, for each definition (0 lowest, 1
/// middle, 2 highest). The first row's first name is as the web API has
/// never spelled it, so that size is never found there.
pub open spec fn img_type(def: int, k: int) -> Seq<char> {
    if def == 0 {
        if k == 0 {
            "thunmnail"@
        } else if k == 1 {
            "bmiddle"@
        } else if k == 2 {
            "large"@
        } else if k == 3 {
            "original"@
        } else if k == 4 {
            "largest"@
        } else {
            "mw2000"@
        }
    } else if def == 1 {
        if k == 0 {
            "large"@
        } else if k == 1 {
            "original"@
        } else if k == 2 {
            "bmiddle"@
        } else if k == 3 {
            "largest"@
        } else if k == 4 {
            "thumbnail"@
        } else {
            "mw2000"@
        }
    } else {
        if k == 0 {
            "mw2000"@
        } else if k == 1 {
            "largest"@
        } else if k == 2 {
            "original"@
        } else if k == 3 {
            "large"@
        } else if k == 4 {
            "bmiddle"@
        } else {
            "thumbnail"@
        }
    }
}

/// The `k`-th size to try for definition `def`.
fn img_type_name(def: u8, k: usize) -> (res: &'static str)
    requires
        def <= 2,
        k < 6,
    ensures
        res@ == img_type(def as int, k as int),
{
    if def == 0 {
        if k == 0 {
            "thunmnail"
        } else if k == 1 {
            "bmiddle"
        } else if k == 2 {
            "large"
        } else if k == 3 {
            "original"
        } else if k == 4 {
            "largest"
        } else {
            "mw2000"
        }
    } else if def == 1 {
        if k == 0 {
            "large"
        } else if k == 1 {
            "original"
        } else if k == 2 {
            "bmiddle"
        } else if k == 3 {
            "largest"
        } else if k == 4 {
            "thumbnail"
        } else {
            "mw2000"
        }
    } else {
        if k == 0 {
            "mw2000"
        } else if k == 1 {
            "largest"
        } else if k == 2 {
            "original"
        } else if k == 3 {
            "large"
        } else if k == 4 {
            "bmiddle"
        } else {
            "thumbnail"
        }
    }
}

/// From the `k`-th size on: the URL of the first size that `info` has as
/// an object, when that object has a string `url`.
pub open spec fn select_from(info: JsonField, def: int, k: int) -> Option<Seq<char>>
    decreases 6 - k,
{
    if k >= 6 {
        None
    } else {
        match field(info, img_type(def, k)) {
            Some(JsonField::Object(ms)) => str_field(JsonField::Object(ms), "url"@),
            _ => select_from(info, def, k + 1),
        }
    }
}

/// The URL of the picture described by `info` in definition `def`.
pub open spec fn spec_select_pic_url(info: JsonField, def: int) -> Option<Seq<char>> {
    if info is Null {
        None
    } else {
        select_from(info, def, 0)
    }
}

/// The URL of the picture described by `info` in definition `def`: that
/// of the first size, best first, that `info` describes.
pub fn select_pic_url(info: &JsonField, def: u8) -> (res: Option<String>)
    requires
        def <= 2,
    ensures
        match res {
            Some(u) => spec_select_pic_url(*info, def as int) == Some(u@),
            None => spec_select_pic_url(*info, def as int) is None,
        },
{
    if let JsonField::Null = info {
        return None;
    }
    let mut k: usize = 0;
    while k < 6
        invariant
            k <= 6,
            def <= 2,
            !(*info is Null),
            select_from(*info, def as int, 0) == select_from(*info, def as int, k as int),
        decreases 6 - k,
    {
        let t = img_type_name(def, k);
        match get_field(info, t) {
            Some(f) => match f {
                JsonField::Object(_) => {
                    return get_str_field(f, "url");
                },
                _ => {},
            },
            None => {},
        }
        k = k + 1;
    }
    None
}

/// The value of the member `key` of `v`, `null` when there is none.
pub open spec fn index_or_null(v: JsonField, key: Seq<char>) -> JsonField {
    match field(v, key) {
        Some(f) => f,
        None => JsonField::Null,
    }
}

/// The URLs of the pictures whose ids are the strings among `ids`,
/// described in `infos`, in order; pictures without a URL are left out.
pub open spec fn urls_of_ids(ids: Seq<JsonField>, infos: JsonField, def: int) -> Seq<Seq<char>>
    decreases ids.len(),
{
    if ids.len() == 0 {
        Seq::empty()
    } else {
        urls_of_ids(ids.drop_last(), infos, def) + match ids.last() {
            JsonField::Str(id) => match spec_select_pic_url(index_or_null(infos, id@), def) {
                Some(u) => seq![u],
                None => Seq::empty(),
            },
            _ => Seq::empty(),
        }
    }
}

/// The URLs of the pictures of a post with the ids `pic_ids` (an array)
/// and the descriptions `pic_infos`.
pub open spec fn spec_pic_ids_to_urls(pic_ids: JsonField, pic_infos: JsonField, def: int) -> Seq<
    Seq<char>,
> {
    match pic_ids {
        JsonField::Array(ids) => urls_of_ids(ids@, pic_infos, def),
        _ => Seq::empty(),
    }
}

/// The URLs of the pictures with the ids `pic_ids`, described in
/// `pic_infos`, in order.
pub fn pic_ids_to_urls(pic_ids: &JsonField, pic_infos: &JsonField, def: u8) -> (res: Vec<String>)
    requires
        def <= 2,
    ensures
        views(res@) == spec_pic_ids_to_urls(*pic_ids, *pic_infos, def as int),
{
    let mut res: Vec<String> = Vec::new();
    match pic_ids {
        JsonField::Array(ids) => {
            let mut i: usize = 0;
            while i < ids.len()
                invariant
                    i <= ids@.len(),
                    def <= 2,
                    views(res@) == urls_of_ids(ids@.take(i as int), *pic_infos, def as int),
                decreases ids.len() - i,
            {
                let ghost before = views(res@);
                proof {
                    assert(ids@.take(i + 1).drop_last() =~= ids@.take(i as int));
                    assert(ids@.take(i + 1).last() == ids@[i as int]);
                }
                match &ids[i] {
                    JsonField::Str(id) => {
                        let url = match get_field(pic_infos, id.as_str()) {
                            Some(info) => select_pic_url(info, def),
                            None => {
                                let null = JsonField::Null;
                                select_pic_url(&null, def)
                            },
                        };
                        match url {
                            Some(u) => {
                                let ghost uv = u@;
                                res.push(u);
                                assert(views(res@) =~= before + seq![uv]);
                            },
                            None => {},
                        }
                    },
                    _ => {},
                }
                assert(views(res@) =~= urls_of_ids(ids@.take(i + 1), *pic_infos, def as int));
                i = i + 1;
            }
            assert(ids@.take(ids@.len() as int) =~= ids@);
        },
        _ => {
            assert(views(res@) =~= Seq::<Seq<char>>::empty());
        },
    }
    res
}

/// The parts of a post that its pictures come from: the ids of its
/// pictures, their descriptions, and the post it reposts.
#[derive(Debug)]
pub struct PostPictures {
    pub pic_ids: Option<JsonField>,
    pub pic_infos: Option<JsonField>,
    pub retweeted_status: Option<Box<PostPictures>>,
}

/// The picture URLs of a post, then those of the post it reposts.
pub open spec fn spec_extract_pic_urls(p: PostPictures, def: int) -> Seq<Seq<char>>
    decreases p,
{
    let own = match (p.pic_ids, p.pic_infos) {
        (Some(ids), Some(infos)) => spec_pic_ids_to_urls(ids, infos, def),
        _ => Seq::empty(),
    };
    match p.retweeted_status {
        Some(r) => own + spec_extract_pic_urls(*r, def),
        None => own,
    }
}

impl PostPictures {
    /// The URLs of the post's pictures in definition `def`, followed by
    /// those of the post it reposts.
    pub fn extract_pic_urls(&self, def: u8) -> (res: Vec<String>)
        requires
            def <= 2,
        ensures
            views(res@) == spec_extract_pic_urls(*self, def as int),
        decreases self,
    {
        let mut own = match (&self.pic_ids, &self.pic_infos) {
            (Some(ids), Some(infos)) => pic_ids_to_urls(ids, infos, def),
            _ => Vec::new(),
        };
        assert(views(own@) =~= match (self.pic_ids, self.pic_infos) {
            (Some(ids), Some(infos)) => spec_pic_ids_to_urls(ids, infos, def as int),
            _ => Seq::<Seq<char>>::empty(),
        });
        match &self.retweeted_status {
            Some(r) => {
                let ghost a = views(own@);
                let mut more = r.extract_pic_urls(def);
                let ghost b = views(more@);
                own.append(&mut more);
                assert(views(own@) =~= a + b);
            },
            None => {},
        }
        own
    }
}

/// The name of the avatar field for definition `def`.
pub open spec fn avatar_field(def: int) -> Seq<char> {
    if def == 0 {
        "profile_image_url"@
    } else if def == 1 {
        "avatar_large"@
    } else {
        "avatar_hd"@
    }
}

/// The avatar URL of the user of `post` in definition `def`.
pub open spec fn spec_avatar_url(post: JsonField, def: int) -> Option<Seq<char>> {
    str_field(index_or_null(post, "user"@), avatar_field(def))
}

/// The avatar URL of the user of `post` in definition `def` (0 the profile
/// image, 1 the large avatar, 2 the HD one), when the post has it.
pub fn get_avatar_url(post: &JsonField, def: u8) -> (res: Option<String>)
    requires
        def <= 2,
    ensures
        match res {
            Some(u) => spec_avatar_url(*post, def as int) == Some(u@),
            None => spec_avatar_url(*post, def as int) is None,
        },
{
    let name = if def == 0 {
        "profile_image_url"
    } else if def == 1 {
        "avatar_large"
    } else {
        "avatar_hd"
    };
    match get_field(post, "user") {
        Some(user) => get_str_field(user, name),
        None => None,
    }
}

} // verus!

verus! {

/// From the `k0`-th size on, the URL is that of the first size that the
/// description has as an object.
proof fn lemma_select_first_object(
    info: JsonField,
    def: int,
    order: Seq<Seq<char>>,
    k0: int,
    k: int,
)
    requires
        order.len() == 6,
        forall|j: int| 0 <= j < 6 ==> #[trigger] img_type(def, j) == order[j],
        0 <= k0 <= k < 6,
        forall|j: int| k0 <= j < k ==> !(field(info, #[trigger] order[j]) matches Some(
            JsonField::Object(_),
        )),
        field(info, order[k]) matches Some(JsonField::Object(_)),
    ensures
        select_from(info, def, k0) == str_field(field(info, order[k])->0, "url"@),
    decreases k - k0,
{
    assert(img_type(def, k0) == order[k0]);
    if k0 < k {
        lemma_select_first_object(info, def, order, k0 + 1, k);
    }
}

/// From the `k0`-th size on, a description with none of the sizes as an
/// object gives no URL.
proof fn lemma_select_none(info: JsonField, def: int, order: Seq<Seq<char>>, k0: int)
    requires
        order.len() == 6,
        forall|j: int| 0 <= j < 6 ==> #[trigger] img_type(def, j) == order[j],
        0 <= k0 <= 6,
        forall|j: int| k0 <= j < 6 ==> !(field(info, #[trigger] order[j]) matches Some(
            JsonField::Object(_),
        )),
    ensures
        select_from(info, def, k0) is None,
    decreases 6 - k0,
{
    if k0 < 6 {
        assert(img_type(def, k0) == order[k0]);
        lemma_select_none(info, def, order, k0 + 1);
    }
}

/// The description has the size `name` as an object.
pub open spec fn has_size(info: JsonField, name: Seq<char>) -> bool {
    field(info, name) matches Some(JsonField::Object(_))
}

/// The sizes, best first, as the site names them: for the lowest definition
/// `thunmnail` (as misspelled), `bmiddle`, `large`, `original`, `largest`,
/// `mw2000`; for the middle one `large`, `original`, `bmiddle`, `largest`,
/// `thumbnail`, `mw2000`; for the highest `mw2000`, `largest`, `original`,
/// `large`, `bmiddle`, `thumbnail`.
pub open spec fn size_order(def: int) -> Seq<Seq<char>> {
    if def == 0 {
        seq!["thunmnail"@, "bmiddle"@, "large"@, "original"@, "largest"@, "mw2000"@]
    } else if def == 1 {
        seq!["large"@, "original"@, "bmiddle"@, "largest"@, "thumbnail"@, "mw2000"@]
    } else {
        seq!["mw2000"@, "largest"@, "original"@, "large"@, "bmiddle"@, "thumbnail"@]
    }
}

/// The picture URL of a description in a definition is that of the first
/// size of `size_order` that the description has as an object; with no
/// such size there is no URL.
pub proof fn law_select_pic_url_order(info: JsonField, def: int, k: int)
    requires
        0 <= def <= 2,
        !(info is Null),
    ensures
        0 <= k < 6 && has_size(info, size_order(def)[k]) && (forall|j: int|
            0 <= j < k ==> !has_size(info, #[trigger] size_order(def)[j]))
            ==> spec_select_pic_url(info, def) == str_field(
            field(info, size_order(def)[k])->0,
            "url"@,
        ),
        (forall|j: int| 0 <= j < 6 ==> !has_size(info, #[trigger] size_order(def)[j]))
            ==> spec_select_pic_url(info, def) is None,
{
    let order = size_order(def);
    assert forall|j: int| 0 <= j < 6 implies #[trigger] img_type(def, j) == order[j] by {}
    if 0 <= k < 6 && has_size(info, order[k]) && (forall|j: int|
        0 <= j < k ==> !has_size(info, #[trigger] order[j])) {
        lemma_select_first_object(info, def, order, 0, k);
    }
    if forall|j: int| 0 <= j < 6 ==> !has_size(info, #[trigger] order[j]) {
        lemma_select_none(info, def, order, 0);
    }
}

/// The avatar URL of a post in a definition is the string that the post's
/// user holds under the profile image (`profile_image_url`) for the lowest,
/// the large avatar (`avatar_large`) for the middle and the HD avatar
/// (`avatar_hd`) for the highest: always one of the user's three avatars.
pub proof fn law_avatar_url_is_an_avatar(post: JsonField, def: int)
    requires
        0 <= def <= 2,
    ensures
        def == 0 ==> spec_avatar_url(post, def) == str_field(
            index_or_null(post, "user"@),
            "profile_image_url"@,
        ),
        def == 1 ==> spec_avatar_url(post, def) == str_field(
            index_or_null(post, "user"@),
            "avatar_large"@,
        ),
        def == 2 ==> spec_avatar_url(post, def) == str_field(
            index_or_null(post, "user"@),
            "avatar_hd"@,
        ),
        spec_avatar_url(post, def) matches Some(u) ==> {
            let user = index_or_null(post, "user"@);
            ||| str_field(user, "profile_image_url"@) == Some(u)
            ||| str_field(user, "avatar_large"@) == Some(u)
            ||| str_field(user, "avatar_hd"@) == Some(u)
        },
{
}

} // verus!
