//! The emoji table of the site: the answer of its configuration API lists,
//! in groups, each emoji phrase with the URL of its picture.

use vstd::prelude::*;
use crate::html_text::EmojiMap;
use crate::json_record::{find_member, member, JsonField};

verus! {

/// The API that lists the emojis.
pub const STATUSES_CONFIG_API: &'static str = "https://weibo.com/ajax/statuses/config";

/// What reading part of the emoji table gives: `Some(Some(pairs))` the
/// phrases and URLs it lists, `Some(None)` a part that is not shaped as the
/// table, and `None` an emoji that is neither an object nor `null`, which
/// the table's reader cannot index by name.
pub type PairScan = Option<Option<Seq<(Seq<char>, Seq<char>)>>>;

/// `head` followed by what `rest` lists, or the failure of `rest`.
pub open spec fn pairs_then(head: Seq<(Seq<char>, Seq<char>)>, rest: PairScan) -> PairScan {
    match rest {
        Some(Some(ps)) => Some(Some(head + ps)),
        other => other,
    }
}

/// What `first` lists followed by what `rest` lists; the first failure
/// wins.
pub open spec fn scan_then(first: PairScan, rest: PairScan) -> PairScan {
    match first {
        Some(Some(ps)) => pairs_then(ps, rest),
        other => other,
    }
}

/// The string member `key` of the members `ms`.
pub open spec fn str_of(ms: Seq<(String, JsonField)>, key: Seq<char>) -> Option<Seq<char>> {
    match member(ms, key) {
        Some(JsonField::Str(s)) => Some(s@),
        _ => None,
    }
}

/// The phrase and URL of an emoji: its string members `phrase` and `url`.
pub open spec fn emoji_pair(e: JsonField) -> PairScan {
    match e {
        JsonField::Object(ms) => match (str_of(ms@, "phrase"@), str_of(ms@, "url"@)) {
            (Some(p), Some(u)) => Some(Some(seq![(p, u)])),
            _ => Some(None),
        },
        JsonField::Null => Some(None),
        _ => None,
    }
}

/// The pairs of the emojis of an array.
pub open spec fn scan_emoji_pairs(es: Seq<JsonField>) -> PairScan
    decreases es.len(),
{
    if es.len() == 0 {
        Some(Some(Seq::empty()))
    } else {
        scan_then(emoji_pair(es[0]), scan_emoji_pairs(es.drop_first()))
    }
}

/// The pairs of a group: each of its members an array of emojis.
pub open spec fn scan_pair_group(entries: Seq<(String, JsonField)>) -> PairScan
    decreases entries.len(),
{
    if entries.len() == 0 {
        Some(Some(Seq::empty()))
    } else {
        scan_then(
            match entries[0].1 {
                JsonField::Array(es) => scan_emoji_pairs(es@),
                _ => Some(None),
            },
            scan_pair_group(entries.drop_first()),
        )
    }
}

/// The pairs of the groups: each an object.
pub open spec fn scan_pair_groups(groups: Seq<(String, JsonField)>) -> PairScan
    decreases groups.len(),
{
    if groups.len() == 0 {
        Some(Some(Seq::empty()))
    } else {
        scan_then(
            match groups[0].1 {
                JsonField::Object(entries) => scan_pair_group(entries@),
                _ => Some(None),
            },
            scan_pair_groups(groups.drop_first()),
        )
    }
}

/// `m` with the pairs `ps` inserted in order; a later pair for a phrase
/// replaces an earlier one.
pub open spec fn insert_pairs(
    m: Map<Seq<char>, Seq<char>>,
    ps: Seq<(Seq<char>, Seq<char>)>,
) -> Map<Seq<char>, Seq<char>>
    decreases ps.len(),
{
    if ps.len() == 0 {
        m
    } else {
        insert_pairs(m.insert(ps[0].0, ps[0].1), ps.drop_first())
    }
}

proof fn lemma_pairs_then_assoc(
    a: Seq<(Seq<char>, Seq<char>)>,
    b: Seq<(Seq<char>, Seq<char>)>,
    rest: PairScan,
)
    ensures
        pairs_then(a, pairs_then(b, rest)) == pairs_then(a + b, rest),
{
    if let Some(Some(ps)) = rest {
        assert(a + (b + ps) =~= (a + b) + ps);
    }
}

proof fn lemma_insert_pairs_concat(
    m: Map<Seq<char>, Seq<char>>,
    a: Seq<(Seq<char>, Seq<char>)>,
    b: Seq<(Seq<char>, Seq<char>)>,
)
    ensures
        insert_pairs(m, a + b) == insert_pairs(insert_pairs(m, a), b),
    decreases a.len(),
{
    if a.len() == 0 {
        assert(a + b =~= b);
    } else {
        assert((a + b).drop_first() =~= a.drop_first() + b);
        assert((a + b)[0] == a[0]);
        lemma_insert_pairs_concat(m.insert(a[0].0, a[0].1), a.drop_first(), b);
    }
}

/// The emoji table is not shaped as expected.
#[derive(Debug, Clone, Copy, PartialEq, Eq)]
pub enum EmoticonError {
    /// The answer says it is not ok.
    NotOk,
    /// The table is not shaped as expected.
    BadFormat,
}

/// Inserts the pairs of the emojis `es` into `map`; `false` when one is
/// not an object with string `phrase` and `url`.
fn read_emoji_pairs(es: &Vec<JsonField>, map: &mut EmojiMap) -> (ok: bool)
    requires
        scan_emoji_pairs(es@) is Some,
    ensures
        match scan_emoji_pairs(es@) {
            Some(Some(ps)) => ok && final(map)@ == insert_pairs(old(map)@, ps),
            _ => !ok,
        },
{
    let ghost m0 = map@;
    let ghost mut acc: Seq<(Seq<char>, Seq<char>)> = Seq::empty();
    let mut i: usize = 0;
    assert(es@.skip(0) =~= es@);
    while i < es.len()
        invariant
            i <= es@.len(),
            map@ == insert_pairs(m0, acc),
            scan_emoji_pairs(es@) is Some,
            scan_emoji_pairs(es@) == pairs_then(acc, scan_emoji_pairs(es@.skip(i as int))),
        decreases es.len() - i,
    {
        let ghost rest = es@.skip(i as int);
        assert(rest.drop_first() =~= es@.skip(i + 1));
        assert(rest[0] == es@[i as int]);
        match &es[i] {
            JsonField::Object(ms) => {
                let phrase = match find_member(ms, "phrase") {
                    Some(k) => match &ms[k].1 {
                        JsonField::Str(p) => p.clone(),
                        _ => {
                            return false;
                        },
                    },
                    None => {
                        return false;
                    },
                };
                let url = match find_member(ms, "url") {
                    Some(k) => match &ms[k].1 {
                        JsonField::Str(u) => u.clone(),
                        _ => {
                            return false;
                        },
                    },
                    None => {
                        return false;
                    },
                };
                let ghost pair = (phrase@, url@);
                proof {
                    lemma_pairs_then_assoc(acc, seq![pair], scan_emoji_pairs(es@.skip(i + 1)));
                    lemma_insert_pairs_concat(m0, acc, seq![pair]);
                    assert(insert_pairs(insert_pairs(m0, acc), seq![pair]) == insert_pairs(
                        insert_pairs(m0, acc).insert(pair.0, pair.1),
                        seq![pair].drop_first(),
                    ));
                    assert(seq![pair].drop_first() =~= Seq::<(Seq<char>, Seq<char>)>::empty());
                }
                map.insert(phrase, url);
                proof {
                    acc = acc + seq![pair];
                }
            },
            _ => {
                return false;
            },
        }
        i = i + 1;
    }
    assert(es@.skip(i as int) =~= Seq::<JsonField>::empty());
    assert(acc + Seq::<(Seq<char>, Seq<char>)>::empty() =~= acc);
    true
}

/// Inserts the pairs of a group into `map`; `false` when it is not shaped
/// as a group.
fn read_pair_group(entries: &Vec<(String, JsonField)>, map: &mut EmojiMap) -> (ok: bool)
    requires
        scan_pair_group(entries@) is Some,
    ensures
        match scan_pair_group(entries@) {
            Some(Some(ps)) => ok && final(map)@ == insert_pairs(old(map)@, ps),
            _ => !ok,
        },
{
    let ghost m0 = map@;
    let ghost mut acc: Seq<(Seq<char>, Seq<char>)> = Seq::empty();
    let mut i: usize = 0;
    assert(entries@.skip(0) =~= entries@);
    while i < entries.len()
        invariant
            i <= entries@.len(),
            map@ == insert_pairs(m0, acc),
            scan_pair_group(entries@) is Some,
            scan_pair_group(entries@) == pairs_then(acc, scan_pair_group(entries@.skip(i as int))),
        decreases entries.len() - i,
    {
        let ghost rest = entries@.skip(i as int);
        assert(rest.drop_first() =~= entries@.skip(i + 1));
        assert(rest[0] == entries@[i as int]);
        match &entries[i].1 {
            JsonField::Array(es) => {
                let ghost before = map@;
                if !read_emoji_pairs(es, map) {
                    return false;
                }
                proof {
                    let ps = scan_emoji_pairs(es@)->0->0;
                    lemma_pairs_then_assoc(acc, ps, scan_pair_group(entries@.skip(i + 1)));
                    lemma_insert_pairs_concat(m0, acc, ps);
                    acc = acc + ps;
                }
            },
            _ => {
                return false;
            },
        }
        i = i + 1;
    }
    assert(entries@.skip(i as int) =~= Seq::<(String, JsonField)>::empty());
    assert(acc + Seq::<(Seq<char>, Seq<char>)>::empty() =~= acc);
    true
}

/// Inserts the pairs of the groups into `map`; `false` when one is not
/// shaped as a group.
fn read_pair_groups(groups: &Vec<(String, JsonField)>, map: &mut EmojiMap) -> (ok: bool)
    requires
        scan_pair_groups(groups@) is Some,
    ensures
        match scan_pair_groups(groups@) {
            Some(Some(ps)) => ok && final(map)@ == insert_pairs(old(map)@, ps),
            _ => !ok,
        },
{
    let ghost m0 = map@;
    let ghost mut acc: Seq<(Seq<char>, Seq<char>)> = Seq::empty();
    let mut i: usize = 0;
    assert(groups@.skip(0) =~= groups@);
    while i < groups.len()
        invariant
            i <= groups@.len(),
            map@ == insert_pairs(m0, acc),
            scan_pair_groups(groups@) is Some,
            scan_pair_groups(groups@) == pairs_then(acc, scan_pair_groups(groups@.skip(i as int))),
        decreases groups.len() - i,
    {
        let ghost rest = groups@.skip(i as int);
        assert(rest.drop_first() =~= groups@.skip(i + 1));
        assert(rest[0] == groups@[i as int]);
        match &groups[i].1 {
            JsonField::Object(entries) => {
                if !read_pair_group(entries, map) {
                    return false;
                }
                proof {
                    let ps = scan_pair_group(entries@)->0->0;
                    lemma_pairs_then_assoc(acc, ps, scan_pair_groups(groups@.skip(i + 1)));
                    lemma_insert_pairs_concat(m0, acc, ps);
                    acc = acc + ps;
                }
            },
            _ => {
                return false;
            },
        }
        i = i + 1;
    }
    assert(groups@.skip(i as int) =~= Seq::<(String, JsonField)>::empty());
    assert(acc + Seq::<(Seq<char>, Seq<char>)>::empty() =~= acc);
    true
}

/// The member `key` of `v`, when `v` is an object that has one.
pub open spec fn field_of(v: JsonField, key: Seq<char>) -> Option<JsonField> {
    match v {
        JsonField::Object(ms) => member(ms@, key),
        _ => None,
    }
}

/// The emoji groups of the answer: `data.emoticon`.
pub open spec fn emoticon_groups(answer: JsonField) -> Option<JsonField> {
    match field_of(answer, "data"@) {
        Some(d) => field_of(d, "emoticon"@),
        None => None,
    }
}

/// The emoji table the answer gives: an error when its `ok` is not 1, or
/// when `data.emoticon` is not an object of groups, each an object of
/// arrays of emojis, each with string `phrase` and `url`; otherwise every
/// phrase with its URL, a later one for a phrase winning.
pub open spec fn spec_emoticon_table(answer: JsonField) -> Result<
    Map<Seq<char>, Seq<char>>,
    EmoticonError,
> {
    if field_of(answer, "ok"@) != Some(JsonField::PosInt(1)) {
        Err(EmoticonError::NotOk)
    } else {
        match emoticon_groups(answer) {
            Some(JsonField::Object(groups)) => match scan_pair_groups(groups@) {
                Some(Some(ps)) => Ok(insert_pairs(Map::empty(), ps)),
                _ => Err(EmoticonError::BadFormat),
            },
            _ => Err(EmoticonError::BadFormat),
        }
    }
}

/// The emoji groups of an ok answer can be reached and read: its `data` is
/// an object or `null` when there is one, and no emoji in the groups is
/// neither an object nor `null`.
pub open spec fn emoticon_readable(answer: JsonField) -> bool {
    &&& field_of(answer, "ok"@) == Some(JsonField::PosInt(1)) ==> match field_of(answer, "data"@) {
        Some(d) => d is Object || d is Null,
        None => true,
    }
    &&& emoticon_groups(answer) matches Some(JsonField::Object(groups)) ==> scan_pair_groups(
        groups@,
    ) is Some
}

/// The member `key` of `v`.
fn get_field<'a>(v: &'a JsonField, key: &str) -> (res: Option<&'a JsonField>)
    ensures
        match res {
            Some(f) => field_of(*v, key@) == Some(*f),
            None => field_of(*v, key@) is None,
        },
{
    match v {
        JsonField::Object(ms) => match find_member(ms, key) {
            Some(i) => Some(&ms[i].1),
            None => None,
        },
        _ => None,
    }
}

/// Reads the emoji table out of the answer of `STATUSES_CONFIG_API`.
pub fn emoticon_table(answer: &JsonField) -> (res: Result<EmojiMap, EmoticonError>)
    requires
        emoticon_readable(*answer),
    ensures
        match (res, spec_emoticon_table(*answer)) {
            (Ok(m), Ok(t)) => m@ == t,
            (Err(e), Err(f)) => e == f,
            _ => false,
        },
{
    let ok = match get_field(answer, "ok") {
        Some(JsonField::PosInt(n)) => *n == 1,
        _ => false,
    };
    if !ok {
        return Err(EmoticonError::NotOk);
    }
    let groups = match get_field(answer, "data") {
        Some(d) => match get_field(d, "emoticon") {
            Some(JsonField::Object(groups)) => groups,
            _ => {
                return Err(EmoticonError::BadFormat);
            },
        },
        None => {
            return Err(EmoticonError::BadFormat);
        },
    };
    let mut map = EmojiMap::new();
    if read_pair_groups(groups, &mut map) {
        Ok(map)
    } else {
        Err(EmoticonError::BadFormat)
    }
}

} // verus!

verus! {

/// Some pair of `ps` is for `key`.
pub open spec fn pairs_have_key(ps: Seq<(Seq<char>, Seq<char>)>, key: Seq<char>) -> bool {
    exists|k: int| 0 <= k < ps.len() && ps[k].0 == key
}

proof fn lemma_scan_then_parts(first: PairScan, rest: PairScan)
    requires
        scan_then(first, rest) is Some && scan_then(first, rest)->0 is Some,
    ensures
        first matches Some(Some(a)) && rest matches Some(Some(b)) && scan_then(first, rest)
            == Some(Some(a + b)),
{
}

proof fn lemma_have_key_concat(a: Seq<(Seq<char>, Seq<char>)>, b: Seq<(Seq<char>, Seq<char>)>, key: Seq<char>)
    requires
        pairs_have_key(a, key) || pairs_have_key(b, key),
    ensures
        pairs_have_key(a + b, key),
{
    if pairs_have_key(a, key) {
        let k = choose|k: int| 0 <= k < a.len() && a[k].0 == key;
        assert((a + b)[k] == a[k]);
    } else {
        let k = choose|k: int| 0 <= k < b.len() && b[k].0 == key;
        assert((a + b)[a.len() + k] == b[k]);
    }
}

/// Every emoji of an array that reads into pairs gives a pair for its
/// phrase.
proof fn lemma_emojis_have_phrase(es: Seq<JsonField>, ei: int, p: Seq<char>)
    requires
        scan_emoji_pairs(es) matches Some(Some(_)),
        0 <= ei < es.len(),
        es[ei] matches JsonField::Object(ms) && str_of(ms@, "phrase"@) == Some(p),
    ensures
        pairs_have_key(scan_emoji_pairs(es)->0->0, p),
    decreases es.len(),
{
    lemma_scan_then_parts(emoji_pair(es[0]), scan_emoji_pairs(es.drop_first()));
    let a = emoji_pair(es[0])->0->0;
    let b = scan_emoji_pairs(es.drop_first())->0->0;
    if ei == 0 {
        assert(a[0].0 == p);
        lemma_have_key_concat(a, b, p);
    } else {
        assert(es.drop_first()[ei - 1] == es[ei]);
        lemma_emojis_have_phrase(es.drop_first(), ei - 1, p);
        lemma_have_key_concat(a, b, p);
    }
}

/// Every emoji of every category of a group that reads into pairs gives a
/// pair for its phrase.
proof fn lemma_group_has_phrase(
    entries: Seq<(String, JsonField)>,
    ci: int,
    es: Seq<JsonField>,
    ei: int,
    p: Seq<char>,
)
    requires
        scan_pair_group(entries) matches Some(Some(_)),
        0 <= ci < entries.len(),
        entries[ci].1 matches JsonField::Array(v) && v@ == es,
        0 <= ei < es.len(),
        es[ei] matches JsonField::Object(ms) && str_of(ms@, "phrase"@) == Some(p),
    ensures
        pairs_have_key(scan_pair_group(entries)->0->0, p),
    decreases entries.len(),
{
    let first = match entries[0].1 {
        JsonField::Array(v) => scan_emoji_pairs(v@),
        _ => Some(None),
    };
    lemma_scan_then_parts(first, scan_pair_group(entries.drop_first()));
    let a = first->0->0;
    let b = scan_pair_group(entries.drop_first())->0->0;
    if ci == 0 {
        lemma_emojis_have_phrase(es, ei, p);
        lemma_have_key_concat(a, b, p);
    } else {
        assert(entries.drop_first()[ci - 1] == entries[ci]);
        lemma_group_has_phrase(entries.drop_first(), ci - 1, es, ei, p);
        lemma_have_key_concat(a, b, p);
    }
}

/// Every emoji of every category of every group that reads into pairs
/// gives a pair for its phrase.
proof fn lemma_groups_have_phrase(
    groups: Seq<(String, JsonField)>,
    gi: int,
    entries: Seq<(String, JsonField)>,
    ci: int,
    es: Seq<JsonField>,
    ei: int,
    p: Seq<char>,
)
    requires
        scan_pair_groups(groups) matches Some(Some(_)),
        0 <= gi < groups.len(),
        groups[gi].1 matches JsonField::Object(v) && v@ == entries,
        0 <= ci < entries.len(),
        entries[ci].1 matches JsonField::Array(v) && v@ == es,
        0 <= ei < es.len(),
        es[ei] matches JsonField::Object(ms) && str_of(ms@, "phrase"@) == Some(p),
    ensures
        pairs_have_key(scan_pair_groups(groups)->0->0, p),
    decreases groups.len(),
{
    let first = match groups[0].1 {
        JsonField::Object(v) => scan_pair_group(v@),
        _ => Some(None),
    };
    lemma_scan_then_parts(first, scan_pair_groups(groups.drop_first()));
    let a = first->0->0;
    let b = scan_pair_groups(groups.drop_first())->0->0;
    if gi == 0 {
        lemma_group_has_phrase(entries, ci, es, ei, p);
        lemma_have_key_concat(a, b, p);
    } else {
        assert(groups.drop_first()[gi - 1] == groups[gi]);
        lemma_groups_have_phrase(groups.drop_first(), gi - 1, entries, ci, es, ei, p);
        lemma_have_key_concat(a, b, p);
    }
}

/// Inserting pairs keeps the phrases already there and adds each pair's.
proof fn lemma_insert_pairs_keys(
    m: Map<Seq<char>, Seq<char>>,
    ps: Seq<(Seq<char>, Seq<char>)>,
    key: Seq<char>,
)
    requires
        m.contains_key(key) || pairs_have_key(ps, key),
    ensures
        insert_pairs(m, ps).contains_key(key),
    decreases ps.len(),
{
    if ps.len() > 0 {
        let m2 = m.insert(ps[0].0, ps[0].1);
        if !m2.contains_key(key) {
            let k = choose|k: int| 0 <= k < ps.len() && ps[k].0 == key;
            assert(k != 0);
            assert(ps.drop_first()[k - 1] == ps[k]);
        }
        lemma_insert_pairs_keys(m2, ps.drop_first(), key);
    }
}

/// Every emoji of every category of every group of the table's answer is in
/// the table: when the answer reads into a table, the phrase of the
/// `ei`-th emoji of the `ci`-th category of the `gi`-th group of
/// `data.emoticon` is one of the table's phrases, whichever group, category
/// and emoji that is.
pub proof fn law_emoticon_table_holds_every_emoji(
    answer: JsonField,
    groups: Seq<(String, JsonField)>,
    gi: int,
    entries: Seq<(String, JsonField)>,
    ci: int,
    es: Seq<JsonField>,
    ei: int,
    p: Seq<char>,
)
    requires
        spec_emoticon_table(answer) is Ok,
        emoticon_groups(answer) matches Some(JsonField::Object(v)) && v@ == groups,
        0 <= gi < groups.len(),
        groups[gi].1 matches JsonField::Object(v) && v@ == entries,
        0 <= ci < entries.len(),
        entries[ci].1 matches JsonField::Array(v) && v@ == es,
        0 <= ei < es.len(),
        es[ei] matches JsonField::Object(ms) && member(ms@, "phrase"@) matches Some(
            JsonField::Str(s),
        ) && s@ == p,
    ensures
        spec_emoticon_table(answer)->Ok_0.contains_key(p),
{
    lemma_groups_have_phrase(groups, gi, entries, ci, es, ei, p);
    lemma_insert_pairs_keys(Map::empty(), scan_pair_groups(groups)->0->0, p);
}

} // verus!

verus! {

/// The `ei`-th emoji of `es` is an object with phrase `p` and URL `u`.
pub open spec fn emoji_in(es: Seq<JsonField>, ei: int, p: Seq<char>, u: Seq<char>) -> bool {
    &&& 0 <= ei < es.len()
    &&& es[ei] matches JsonField::Object(ms) && str_of(ms@, "phrase"@) == Some(p) && str_of(
        ms@,
        "url"@,
    ) == Some(u)
}

/// The `ei`-th emoji of the `ci`-th category of a group has phrase `p` and
/// URL `u`.
pub open spec fn category_emoji(
    entries: Seq<(String, JsonField)>,
    ci: int,
    ei: int,
    p: Seq<char>,
    u: Seq<char>,
) -> bool {
    &&& 0 <= ci < entries.len()
    &&& entries[ci].1 matches JsonField::Array(es) && emoji_in(es@, ei, p, u)
}

/// The `ei`-th emoji of the `ci`-th category of the `gi`-th group has
/// phrase `p` and URL `u`.
pub open spec fn group_emoji(
    groups: Seq<(String, JsonField)>,
    gi: int,
    ci: int,
    ei: int,
    p: Seq<char>,
    u: Seq<char>,
) -> bool {
    &&& 0 <= gi < groups.len()
    &&& groups[gi].1 matches JsonField::Object(entries) && category_emoji(entries@, ci, ei, p, u)
}

proof fn lemma_pair_from_emojis(es: Seq<JsonField>, j: int)
    requires
        scan_emoji_pairs(es) matches Some(Some(ps)) && 0 <= j < ps.len(),
    ensures
        ({
            let ps = scan_emoji_pairs(es)->0->0;
            exists|ei: int| #[trigger] emoji_in(es, ei, ps[j].0, ps[j].1)
        }),
    decreases es.len(),
{
    let ps = scan_emoji_pairs(es)->0->0;
    lemma_scan_then_parts(emoji_pair(es[0]), scan_emoji_pairs(es.drop_first()));
    let a = emoji_pair(es[0])->0->0;
    let b = scan_emoji_pairs(es.drop_first())->0->0;
    assert(ps == a + b);
    if j < a.len() {
        assert(emoji_in(es, 0, ps[j].0, ps[j].1));
    } else {
        assert(ps[j] == b[j - a.len()]);
        lemma_pair_from_emojis(es.drop_first(), j - a.len());
        let ei = choose|ei: int| #[trigger] emoji_in(es.drop_first(), ei, b[j - a.len()].0, b[j - a.len()].1);
        assert(es.drop_first()[ei] == es[ei + 1]);
        assert(emoji_in(es, ei + 1, ps[j].0, ps[j].1));
    }
}

proof fn lemma_pair_from_group(entries: Seq<(String, JsonField)>, j: int)
    requires
        scan_pair_group(entries) matches Some(Some(ps)) && 0 <= j < ps.len(),
    ensures
        ({
            let ps = scan_pair_group(entries)->0->0;
            exists|ci: int, ei: int| #[trigger] category_emoji(entries, ci, ei, ps[j].0, ps[j].1)
        }),
    decreases entries.len(),
{
    let ps = scan_pair_group(entries)->0->0;
    let first = match entries[0].1 {
        JsonField::Array(v) => scan_emoji_pairs(v@),
        _ => Some(None),
    };
    lemma_scan_then_parts(first, scan_pair_group(entries.drop_first()));
    let a = first->0->0;
    let b = scan_pair_group(entries.drop_first())->0->0;
    assert(ps == a + b);
    if j < a.len() {
        if let JsonField::Array(v) = entries[0].1 {
            lemma_pair_from_emojis(v@, j);
            let ei = choose|ei: int| #[trigger] emoji_in(v@, ei, a[j].0, a[j].1);
            assert(category_emoji(entries, 0, ei, ps[j].0, ps[j].1));
        }
    } else {
        assert(ps[j] == b[j - a.len()]);
        lemma_pair_from_group(entries.drop_first(), j - a.len());
        let (ci, ei) = choose|ci: int, ei: int|
            #[trigger] category_emoji(entries.drop_first(), ci, ei, b[j - a.len()].0, b[j - a.len()].1);
        assert(entries.drop_first()[ci] == entries[ci + 1]);
        assert(category_emoji(entries, ci + 1, ei, ps[j].0, ps[j].1));
    }
}

proof fn lemma_pair_from_groups(groups: Seq<(String, JsonField)>, j: int)
    requires
        scan_pair_groups(groups) matches Some(Some(ps)) && 0 <= j < ps.len(),
    ensures
        ({
            let ps = scan_pair_groups(groups)->0->0;
            exists|gi: int, ci: int, ei: int| #[trigger] group_emoji(groups, gi, ci, ei, ps[j].0, ps[j].1)
        }),
    decreases groups.len(),
{
    let ps = scan_pair_groups(groups)->0->0;
    let first = match groups[0].1 {
        JsonField::Object(v) => scan_pair_group(v@),
        _ => Some(None),
    };
    lemma_scan_then_parts(first, scan_pair_groups(groups.drop_first()));
    let a = first->0->0;
    let b = scan_pair_groups(groups.drop_first())->0->0;
    assert(ps == a + b);
    if j < a.len() {
        if let JsonField::Object(v) = groups[0].1 {
            lemma_pair_from_group(v@, j);
            let (ci, ei) = choose|ci: int, ei: int| #[trigger] category_emoji(v@, ci, ei, a[j].0, a[j].1);
            assert(group_emoji(groups, 0, ci, ei, ps[j].0, ps[j].1));
        }
    } else {
        assert(ps[j] == b[j - a.len()]);
        lemma_pair_from_groups(groups.drop_first(), j - a.len());
        let (gi, ci, ei) = choose|gi: int, ci: int, ei: int|
            #[trigger] group_emoji(groups.drop_first(), gi, ci, ei, b[j - a.len()].0, b[j - a.len()].1);
        assert(groups.drop_first()[gi] == groups[gi + 1]);
        assert(group_emoji(groups, gi + 1, ci, ei, ps[j].0, ps[j].1));
    }
}

/// A phrase of the map after inserting pairs is one it had, with its value,
/// or the phrase of a pair, with that pair's URL.
proof fn lemma_insert_pairs_values(
    m: Map<Seq<char>, Seq<char>>,
    ps: Seq<(Seq<char>, Seq<char>)>,
    key: Seq<char>,
)
    requires
        insert_pairs(m, ps).contains_key(key),
    ensures
        (m.contains_key(key) && insert_pairs(m, ps)[key] == m[key]) || exists|j: int|
            0 <= j < ps.len() && ps[j] == (key, insert_pairs(m, ps)[key]),
    decreases ps.len(),
{
    if ps.len() > 0 {
        let m2 = m.insert(ps[0].0, ps[0].1);
        lemma_insert_pairs_values(m2, ps.drop_first(), key);
        let v = insert_pairs(m, ps)[key];
        if m2.contains_key(key) && v == m2[key] {
            if key == ps[0].0 {
                assert(ps[0] == (key, v));
            }
        } else {
            let j = choose|j: int|
                0 <= j < ps.drop_first().len() && ps.drop_first()[j] == (key, v);
            assert(ps[j + 1] == (key, v));
        }
    }
}

/// Every phrase of the table comes from the answer, with its URL: when the
/// answer reads into a table, each phrase the table holds is the phrase of
/// some emoji of some category of some group of `data.emoticon`, and the
/// table gives it that emoji's URL.
pub proof fn law_emoticon_table_entries_come_from_emojis(
    answer: JsonField,
    groups: Seq<(String, JsonField)>,
    p: Seq<char>,
)
    requires
        spec_emoticon_table(answer) is Ok,
        emoticon_groups(answer) matches Some(JsonField::Object(v)) && v@ == groups,
        spec_emoticon_table(answer)->Ok_0.contains_key(p),
    ensures
        exists|gi: int, ci: int, ei: int|
            #[trigger] group_emoji(groups, gi, ci, ei, p, spec_emoticon_table(answer)->Ok_0[p]),
{
    let ps = scan_pair_groups(groups)->0->0;
    lemma_insert_pairs_values(Map::empty(), ps, p);
    let t = spec_emoticon_table(answer)->Ok_0;
    let j = choose|j: int| 0 <= j < ps.len() && ps[j] == (p, t[p]);
    lemma_pair_from_groups(groups, j);
}

} // verus!
