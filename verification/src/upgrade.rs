//! The database upgrade from version 0 to version 1: deciding whether to
//! upgrade, resuming an interrupted upgrade from its status file, and the
//! data it computes for the new columns and the picture table.

use vstd::prelude::*;
use vstd::string::*;
use crate::created_at::{offset_display, parse_created_at, parsed_time, MalformedTime, CREATED_AT_FORMAT};
use crate::json_record::{find_member, member, JsonField};
use crate::html_text::contains_string;
use crate::pattern::views;
use crate::picture::{spec_strip_url_queries, strip_url_queries};
use crate::strings::{
    char_vec, decimal, is_head_before, lacks, lemma_head_of, push_decimal, push_signed_decimal,
    signed_decimal,
};

verus! {

/// What to do with a database of a given version.
#[derive(Debug, Clone, Copy, PartialEq, Eq)]
pub enum VersionAction {
    /// It is already at version 1.
    UpToDate,
    /// It was written by a newer program.
    Newer,
    /// Its version makes no sense.
    Invalid,
    /// It is at version 0 and is upgraded.
    Upgrade,
}

/// What to do with a database whose `user_version` is `v`.
pub open spec fn spec_version_action(v: i64) -> VersionAction {
    if v == 1 {
        VersionAction::UpToDate
    } else if v > 1 {
        VersionAction::Newer
    } else if v < 0 {
        VersionAction::Invalid
    } else {
        VersionAction::Upgrade
    }
}

/// What to do with a database whose `user_version` is `v`: only version 0
/// is upgraded.
pub fn version_action(v: i64) -> (res: VersionAction)
    ensures
        res == spec_version_action(v),
{
    if v == 1 {
        VersionAction::UpToDate
    } else if v > 1 {
        VersionAction::Newer
    } else if v < 0 {
        VersionAction::Invalid
    } else {
        VersionAction::Upgrade
    }
}

/// Where an upgrade stands: `flag` counts the steps recorded as done in the
/// status file, `check_point` the steps reached in this run.
#[derive(Debug, Clone, Copy, PartialEq, Eq)]
pub struct Checkpoints {
    pub flag: i32,
    pub check_point: i32,
}

/// The state after reaching one more step, and whether that step is still
/// to be done.
pub open spec fn spec_step(c: Checkpoints) -> (Checkpoints, bool) {
    if c.flag > c.check_point {
        (Checkpoints { flag: c.flag, check_point: (c.check_point + 1) as i32 }, false)
    } else {
        (Checkpoints { flag: (c.flag + 1) as i32, check_point: (c.check_point + 1) as i32 }, true)
    }
}

/// The state after `n` steps of a run that resumes from `flag`.
pub open spec fn state_after(flag: i32, n: nat) -> Checkpoints
    decreases n,
{
    if n == 0 {
        Checkpoints { flag, check_point: 0 }
    } else {
        spec_step(state_after(flag, (n - 1) as nat)).0
    }
}

impl Checkpoints {
    /// A run that resumes after the `flag` steps the status file records.
    pub fn resume(flag: i32) -> (res: Self)
        ensures
            res == state_after(flag, 0),
    {
        Checkpoints { flag, check_point: 0 }
    }

    /// Reaches the next step, and tells whether it is still to be done.
    /// When it is, the step is counted as done: the caller records it in
    /// the status file, under the number `old(self).flag`.
    pub fn is_unfinished(&mut self) -> (res: bool)
        requires
            old(self).check_point < i32::MAX,
            old(self).flag <= old(self).check_point ==> old(self).flag < i32::MAX,
        ensures
            (*final(self), res) == spec_step(*old(self)),
    {
        if self.flag > self.check_point {
            self.check_point = self.check_point + 1;
            false
        } else {
            self.flag = self.flag + 1;
            self.check_point = self.check_point + 1;
            true
        }
    }
}

/// A run that resumes from `flag` skips exactly the steps the status file
/// records as done: after `n` steps it has reached `n` of them, `flag` has
/// become the larger of `flag` and `n`, and the next step is to be done
/// exactly when it is not one of the first `flag`.
pub proof fn law_resume_skips_done_steps(flag: i32, n: nat)
    requires
        0 <= flag,
        n < i32::MAX,
    ensures
        state_after(flag, n).check_point == n,
        state_after(flag, n).flag == (if flag >= n {
            flag as int
        } else {
            n as int
        }),
        spec_step(state_after(flag, n)).1 == (n >= flag),
    decreases n,
{
    if n > 0 {
        law_resume_skips_done_steps(flag, (n - 1) as nat);
    }
}

/// The line the status file records a step with: its number, then the
/// message.
pub open spec fn spec_status_line(flag: i32, message: Seq<char>) -> Seq<char> {
    signed_decimal(flag as int) + ": "@ + message + seq!['\n']
}

/// The line the status file records a step with: `flag: message`.
pub fn status_line(flag: i32, message: &str) -> (res: String)
    ensures
        res@ == spec_status_line(flag, message@),
{
    let mut res = String::new();
    push_signed_decimal(&mut res, flag as i64);
    res.append(": ");
    res.append(message);
    res.append("\n");
    proof {
        reveal_strlit("\n");
    }
    assert(res@ =~= spec_status_line(flag, message@));
    res
}

/// `c` is an ASCII digit.
pub open spec fn is_digit(c: char) -> bool {
    '0' <= c <= '9'
}

/// How many ASCII digits `s` begins with.
pub open spec fn lead_len(s: Seq<char>) -> nat
    decreases s.len(),
{
    if s.len() > 0 && is_digit(s[0]) {
        1 + lead_len(s.drop_first())
    } else {
        0
    }
}

/// The number the digits `ds` write.
pub open spec fn digits_value(ds: Seq<char>) -> nat
    decreases ds.len(),
{
    if ds.len() == 0 {
        0
    } else {
        (digits_value(ds.drop_last()) * 10 + (ds.last() as u32 - '0' as u32)) as nat
    }
}

/// The step number a line of the status file records: the number its
/// leading digits write, or 0 when it has none or they do not fit an
/// `i32`.
pub open spec fn line_flag(line: Seq<char>) -> int {
    let ds = line.take(lead_len(line) as int);
    if ds.len() > 0 && digits_value(ds) <= i32::MAX {
        digits_value(ds) as int
    } else {
        0
    }
}

/// `i` is where a line of `s` begins.
pub open spec fn line_start(s: Seq<char>, i: int) -> bool {
    0 <= i < s.len() && (i == 0 || s[i - 1] == '\n')
}

/// `r` is the largest step number the lines of `s` record, or 0.
pub open spec fn is_status_flag(s: Seq<char>, r: int) -> bool {
    &&& r >= 0
    &&& forall|i: int| line_start(s, i) ==> line_flag(#[trigger] s.skip(i)) <= r
    &&& (r == 0 || exists|i: int| line_start(s, i) && line_flag(#[trigger] s.skip(i)) == r)
}

proof fn lemma_lead_len(s: Seq<char>, k: int)
    requires
        0 <= k <= s.len(),
        forall|j: int| 0 <= j < k ==> is_digit(s[j]),
        k == s.len() || !is_digit(s[k]),
    ensures
        lead_len(s) == k,
    decreases k,
{
    if k > 0 {
        lemma_lead_len(s.drop_first(), k - 1);
    }
}

/// The step number the line beginning at `i` of `cs` records.
fn line_flag_at(cs: &Vec<char>, i: usize) -> (res: i32)
    requires
        i <= cs@.len(),
    ensures
        res == line_flag(cs@.skip(i as int)),
        res >= 0,
{
    let mut j: usize = i;
    let mut acc: u64 = 0;
    let mut too_big = false;
    while j < cs.len() && '0' <= cs[j] && cs[j] <= '9'
        invariant
            i <= j <= cs@.len(),
            forall|k: int| i <= k < j ==> is_digit(cs@[k]),
            !too_big ==> acc == digits_value(cs@.subrange(i as int, j as int)) && acc <= i32::MAX,
            too_big ==> digits_value(cs@.subrange(i as int, j as int)) > i32::MAX,
        decreases cs.len() - j,
    {
        let ghost before = cs@.subrange(i as int, j as int);
        let d = (cs[j] as u32 - '0' as u32) as u64;
        proof {
            let after = cs@.subrange(i as int, j + 1);
            assert(after.drop_last() =~= before);
            assert(after.last() == cs@[j as int]);
            assert(digits_value(after) == digits_value(before) * 10 + d);
        }
        if !too_big {
            let next = acc * 10 + d;
            if next > 2147483647u64 {
                too_big = true;
            } else {
                acc = next;
            }
        }
        j = j + 1;
    }
    proof {
        let s = cs@.skip(i as int);
        let k = (j - i) as int;
        assert forall|m: int| 0 <= m < k implies is_digit(s[m]) by {
            assert(s[m] == cs@[i + m]);
        }
        if j < cs@.len() {
            assert(s[k] == cs@[j as int]);
        }
        lemma_lead_len(s, k);
        assert(s.take(k) =~= cs@.subrange(i as int, j as int));
    }
    if j == i || too_big {
        0
    } else {
        acc as i32
    }
}

/// The number of the last step an interrupted upgrade recorded: the
/// largest number that a line of the status file begins with, or 0.
pub fn status_flag(content: &str) -> (res: i32)
    ensures
        is_status_flag(content@, res as int),
{
    let cs = char_vec(content);
    let mut best: i32 = 0;
    let mut i: usize = 0;
    while i < cs.len()
        invariant
            cs@ == content@,
            i <= cs@.len(),
            best >= 0,
            forall|k: int| 0 <= k < i && line_start(cs@, k) ==> line_flag(#[trigger] cs@.skip(k)) <= best,
            best == 0 || exists|k: int| 0 <= k < i && line_start(cs@, k) && line_flag(
                #[trigger] cs@.skip(k),
            ) == best,
        decreases cs.len() - i,
    {
        if i == 0 || cs[i - 1] == '\n' {
            let f = line_flag_at(&cs, i);
            if f > best {
                best = f;
            }
        }
        i = i + 1;
    }
    best
}


/// The new creation-time columns of a post: its id, its timestamp and its
/// time zone as text.
#[derive(Debug, Clone)]
pub struct TimeUpdate {
    pub id: i64,
    pub timestamp: i64,
    pub timezone: String,
}

/// `u` holds the new columns of the post `id` created at `created_at`.
pub open spec fn time_update_of(u: TimeUpdate, id: i64, created_at: Seq<char>) -> bool {
    match parsed_time(created_at, CREATED_AT_FORMAT@) {
        Some((timestamp, offset)) => {
            &&& u.id == id
            &&& u.timestamp == timestamp
            &&& u.timezone@ == offset_display(offset as int)
        },
        None => false,
    }
}

/// The new creation-time columns of the posts `(id, created_at)` of
/// `rows`, in order; an error when one of the times cannot be read, in
/// which case no post is updated.
pub fn convert_created_at(rows: &Vec<(i64, String)>) -> (res: Result<Vec<TimeUpdate>, MalformedTime>)
    ensures
        match res {
            Ok(us) => us@.len() == rows@.len() && forall|i: int|
                0 <= i < rows@.len() ==> time_update_of(#[trigger] us@[i], rows@[i].0, rows@[i].1@),
            Err(_) => exists|i: int|
                0 <= i < rows@.len() && #[trigger] parsed_time(rows@[i].1@, CREATED_AT_FORMAT@) is None,
        },
{
    let mut us: Vec<TimeUpdate> = Vec::new();
    let mut i: usize = 0;
    while i < rows.len()
        invariant
            i <= rows@.len(),
            us@.len() == i,
            forall|k: int| 0 <= k < i ==> time_update_of(#[trigger] us@[k], rows@[k].0, rows@[k].1@),
        decreases rows.len() - i,
    {
        match parse_created_at(rows[i].1.as_str()) {
            Ok(t) => {
                let tz = t.timezone_text();
                us.push(TimeUpdate { id: rows[i].0, timestamp: t.timestamp, timezone: tz });
            },
            Err(e) => {
                return Err(e);
            },
        }
        i = i + 1;
    }
    Ok(us)
}

/// The map that inserting the `(key, value)` pairs of `entries` in order
/// builds: a later pair for a key replaces an earlier one.
pub open spec fn index_map(entries: Seq<(Seq<char>, i64)>) -> Map<Seq<char>, i64>
    decreases entries.len(),
{
    if entries.len() == 0 {
        Map::empty()
    } else {
        index_map(entries.drop_last()).insert(entries.last().0, entries.last().1)
    }
}

/// The views of the pairs of an index.
pub open spec fn pairs_view(v: Seq<(String, i64)>) -> Seq<(Seq<char>, i64)> {
    v.map_values(|e: (String, i64)| (e.0@, e.1))
}

/// The value `index_map(entries)` gives `key`.
fn index_lookup(entries: &Vec<(String, i64)>, key: &String) -> (res: Option<i64>)
    ensures
        res == (if index_map(pairs_view(entries@)).contains_key(key@) {
            Some(index_map(pairs_view(entries@))[key@])
        } else {
            None
        }),
{
    let ghost all = pairs_view(entries@);
    let mut j: usize = entries.len();
    assert(all.take(j as int) =~= all);
    while j > 0
        invariant
            j <= entries@.len(),
            all == pairs_view(entries@),
            index_map(all).contains_key(key@) == index_map(all.take(j as int)).contains_key(key@),
            index_map(all).contains_key(key@) ==> index_map(all)[key@] == index_map(
                all.take(j as int),
            )[key@],
        decreases j,
    {
        let ghost pre = all.take(j as int);
        assert(pre.drop_last() =~= all.take(j - 1));
        assert(pre.last() == (entries@[j - 1].0@, entries@[j - 1].1));
        if entries[j - 1].0.eq(key) {
            return Some(entries[j - 1].1);
        }
        j = j - 1;
    }
    assert(all.take(0) =~= Seq::<(Seq<char>, i64)>::empty());
    None
}

/// The avatar URLs of users `(id, profile image, large avatar, HD avatar)`,
/// each without its query and paired with the user.
pub open spec fn avatar_entries(rows: Seq<(i64, String, String, String)>) -> Seq<(Seq<char>, i64)>
    decreases rows.len(),
{
    if rows.len() == 0 {
        Seq::empty()
    } else {
        let r = rows.last();
        avatar_entries(rows.drop_last()) + seq![
            (spec_strip_url_queries(r.1@), r.0),
            (spec_strip_url_queries(r.2@), r.0),
            (spec_strip_url_queries(r.3@), r.0),
        ]
    }
}

/// The avatar index of the users of `rows`, `(id, profile image, large
/// avatar, HD avatar)`: each URL without its query, to its user.
pub fn avatar_index(rows: &Vec<(i64, String, String, String)>) -> (res: Vec<(String, i64)>)
    ensures
        pairs_view(res@) == avatar_entries(rows@),
{
    let mut res: Vec<(String, i64)> = Vec::new();
    let mut i: usize = 0;
    while i < rows.len()
        invariant
            i <= rows@.len(),
            pairs_view(res@) == avatar_entries(rows@.take(i as int)),
        decreases rows.len() - i,
    {
        let r = &rows[i];
        let ghost before = pairs_view(res@);
        res.push((String::from_str(strip_url_queries(r.1.as_str())), r.0));
        res.push((String::from_str(strip_url_queries(r.2.as_str())), r.0));
        res.push((String::from_str(strip_url_queries(r.3.as_str())), r.0));
        proof {
            assert(rows@.take(i + 1).drop_last() =~= rows@.take(i as int));
            assert(rows@.take(i + 1).last() == rows@[i as int]);
            assert(pairs_view(res@) =~= avatar_entries(rows@.take(i + 1)));
        }
        i = i + 1;
    }
    assert(rows@.take(rows@.len() as int) =~= rows@);
    res
}

/// The strings among `items`, in order.
pub open spec fn string_items(items: Seq<JsonField>) -> Seq<Seq<char>>
    decreases items.len(),
{
    if items.len() == 0 {
        Seq::empty()
    } else {
        string_items(items.drop_last()) + match items.last() {
            JsonField::Str(s) => seq![s@],
            _ => Seq::empty(),
        }
    }
}

/// `ids`, each paired with `post`.
pub open spec fn with_owner(ids: Seq<Seq<char>>, post: i64) -> Seq<(Seq<char>, i64)> {
    ids.map_values(|id: Seq<char>| (id, post))
}

/// The picture ids of posts `(id, pic_ids)`, each paired with its post.
/// The picture ids of a post are the strings of the JSON array it stores;
/// a post stores none, or something that is not an array, has none.
pub open spec fn post_pic_entries(rows: Seq<(i64, Option<JsonField>)>) -> Seq<(Seq<char>, i64)>
    decreases rows.len(),
{
    if rows.len() == 0 {
        Seq::empty()
    } else {
        let r = rows.last();
        post_pic_entries(rows.drop_last()) + match r.1 {
            Some(JsonField::Array(items)) => with_owner(string_items(items@), r.0),
            _ => Seq::empty(),
        }
    }
}

/// The picture index of the posts of `rows`: each picture id stored with a
/// post, to that post.
pub fn post_pic_index(rows: &Vec<(i64, Option<JsonField>)>) -> (res: Vec<(String, i64)>)
    ensures
        pairs_view(res@) == post_pic_entries(rows@),
{
    let mut res: Vec<(String, i64)> = Vec::new();
    let mut i: usize = 0;
    while i < rows.len()
        invariant
            i <= rows@.len(),
            pairs_view(res@) == post_pic_entries(rows@.take(i as int)),
        decreases rows.len() - i,
    {
        let ghost before = pairs_view(res@);
        let id = rows[i].0;
        proof {
            assert(rows@.take(i + 1).drop_last() =~= rows@.take(i as int));
            assert(rows@.take(i + 1).last() == rows@[i as int]);
        }
        match &rows[i].1 {
            Some(JsonField::Array(items)) => {
                let mut k: usize = 0;
                while k < items.len()
                    invariant
                        k <= items@.len(),
                        pairs_view(res@) == before + with_owner(
                            string_items(items@.take(k as int)),
                            id,
                        ),
                    decreases items.len() - k,
                {
                    let ghost mid = pairs_view(res@);
                    proof {
                        assert(items@.take(k + 1).drop_last() =~= items@.take(k as int));
                        assert(items@.take(k + 1).last() == items@[k as int]);
                    }
                    match &items[k] {
                        JsonField::Str(s) => {
                            res.push((s.clone(), id));
                            assert(string_items(items@.take(k + 1)) =~= string_items(
                                items@.take(k as int),
                            ) + seq![s@]);
                            assert(with_owner(string_items(items@.take(k + 1)), id) =~= with_owner(
                                string_items(items@.take(k as int)),
                                id,
                            ) + seq![(s@, id)]);
                            assert(pairs_view(res@) =~= mid + seq![(s@, id)]);
                            assert(pairs_view(res@) =~= before + with_owner(
                                string_items(items@.take(k + 1)),
                                id,
                            ));
                        },
                        _ => {
                            assert(string_items(items@.take(k + 1)) =~= string_items(
                                items@.take(k as int),
                            ));
                        },
                    }
                    k = k + 1;
                }
                assert(items@.take(items@.len() as int) =~= items@);
                assert(pairs_view(res@) =~= post_pic_entries(rows@.take(i + 1)));
            },
            _ => {
                assert(pairs_view(res@) =~= post_pic_entries(rows@.take(i + 1)));
            },
        }
        i = i + 1;
    }
    assert(rows@.take(rows@.len() as int) =~= rows@);
    res
}

/// What a stored picture belongs to.
#[derive(Debug, Clone, Copy, PartialEq, Eq)]
pub enum PictureOwner {
    /// It is shown in the post.
    Post(i64),
    /// It is the avatar of the user.
    Avatar(i64),
    /// It is an emoji.
    Emoji,
    /// Nothing known shows it.
    Unknown,
}

/// What the picture `pic_id` at `url` belongs to: a post that lists it,
/// else the user whose avatar it is, else an emoji.
pub open spec fn spec_classify(
    pic_id: Seq<char>,
    url: Seq<char>,
    post_pics: Map<Seq<char>, i64>,
    avatars: Map<Seq<char>, i64>,
    emoticons: Seq<Seq<char>>,
) -> PictureOwner {
    if post_pics.contains_key(pic_id) {
        PictureOwner::Post(post_pics[pic_id])
    } else if avatars.contains_key(url) {
        PictureOwner::Avatar(avatars[url])
    } else if emoticons.contains(url) {
        PictureOwner::Emoji
    } else {
        PictureOwner::Unknown
    }
}

/// What the picture `pic_id` stored from `url` belongs to, given the
/// picture ids of posts, the avatar URLs of users and the emoji URLs.
pub fn classify_picture(
    pic_id: &String,
    url: &String,
    post_pics: &Vec<(String, i64)>,
    avatars: &Vec<(String, i64)>,
    emoticons: &Vec<String>,
) -> (res: PictureOwner)
    ensures
        res == spec_classify(
            pic_id@,
            url@,
            index_map(pairs_view(post_pics@)),
            index_map(pairs_view(avatars@)),
            views(emoticons@),
        ),
{
    match index_lookup(post_pics, pic_id) {
        Some(id) => PictureOwner::Post(id),
        None => match index_lookup(avatars, url) {
            Some(id) => PictureOwner::Avatar(id),
            None => if contains_string(emoticons, url) {
                PictureOwner::Emoji
            } else {
                PictureOwner::Unknown
            },
        },
    }
}

/// The query for the `idx`-th thousand of stored pictures.
pub fn picture_page_sql(idx: u32) -> (res: String)
    requires
        idx * 1000 <= i32::MAX,
    ensures
        res@ == "SELECT url, id FROM picture_blob LIMIT 1000 OFFSET "@ + decimal((idx * 1000) as nat)
            + ";"@,
{
    let mut res = String::from_str("SELECT url, id FROM picture_blob LIMIT 1000 OFFSET ");
    push_decimal(&mut res, (idx * 1000) as u64);
    res.append(";");
    res
}


/// What reading part of the emoji file gives: `Some(Some(urls))` the URLs
/// it lists, `Some(None)` a part that is not shaped as an emoji file, and
/// `None` an emoji that is neither an object nor `null`, which the file's
/// reader cannot index by name.
pub type Scan = Option<Option<Seq<Seq<char>>>>;

/// `head` followed by what `rest` lists, or the failure of `rest`.
pub open spec fn then_prepend(head: Seq<Seq<char>>, rest: Scan) -> Scan {
    match rest {
        Some(Some(us)) => Some(Some(head + us)),
        other => other,
    }
}

/// What `first` lists followed by what `rest` lists; the first failure
/// wins.
pub open spec fn then_scan(first: Scan, rest: Scan) -> Scan {
    match first {
        Some(Some(us)) => then_prepend(us, rest),
        other => other,
    }
}

/// The URL of an emoji: the string member `url` of an object.
pub open spec fn emoji_url(e: JsonField) -> Scan {
    match e {
        JsonField::Object(ms) => match member(ms@, "url"@) {
            Some(JsonField::Str(u)) => Some(Some(seq![u@])),
            _ => Some(None),
        },
        JsonField::Null => Some(None),
        _ => None,
    }
}

/// The URLs of the emojis of an array.
pub open spec fn scan_emojis(es: Seq<JsonField>) -> Scan
    decreases es.len(),
{
    if es.len() == 0 {
        Some(Some(Seq::empty()))
    } else {
        then_scan(emoji_url(es[0]), scan_emojis(es.drop_first()))
    }
}

/// The URLs of a group: each of its members an array of emojis.
pub open spec fn scan_group(entries: Seq<(String, JsonField)>) -> Scan
    decreases entries.len(),
{
    if entries.len() == 0 {
        Some(Some(Seq::empty()))
    } else {
        then_scan(
            match entries[0].1 {
                JsonField::Array(es) => scan_emojis(es@),
                _ => Some(None),
            },
            scan_group(entries.drop_first()),
        )
    }
}

/// The URLs of the groups: each an object.
pub open spec fn scan_groups(groups: Seq<(String, JsonField)>) -> Scan
    decreases groups.len(),
{
    if groups.len() == 0 {
        Some(Some(Seq::empty()))
    } else {
        then_scan(
            match groups[0].1 {
                JsonField::Object(entries) => scan_group(entries@),
                _ => Some(None),
            },
            scan_groups(groups.drop_first()),
        )
    }
}

/// The URLs the emoji file lists: an object of groups, each an object of
/// arrays of emojis, each an object with a string `url`.
pub open spec fn scan_emoticons(json: JsonField) -> Scan {
    match json {
        JsonField::Object(groups) => scan_groups(groups@),
        _ => Some(None),
    }
}

proof fn lemma_then_prepend_assoc(a: Seq<Seq<char>>, b: Seq<Seq<char>>, rest: Scan)
    ensures
        then_prepend(a, then_prepend(b, rest)) == then_prepend(a + b, rest),
{
    if let Some(Some(us)) = rest {
        assert(a + (b + us) =~= (a + b) + us);
    }
}

/// The emoji file is not shaped as expected.
#[derive(Debug, Clone, Copy, PartialEq, Eq)]
pub struct EmoticonShapeError;

/// Appends the URLs of the emojis `es` to `out`; `false` when one is not
/// an object with a string `url`.
fn read_emojis(es: &Vec<JsonField>, out: &mut Vec<String>) -> (ok: bool)
    requires
        scan_emojis(es@) is Some,
    ensures
        match scan_emojis(es@) {
            Some(Some(us)) => ok && views(final(out)@) == views(old(out)@) + us,
            _ => !ok,
        },
{
    let ghost out0 = views(out@);
    let ghost mut acc: Seq<Seq<char>> = Seq::empty();
    let mut i: usize = 0;
    assert(es@.skip(0) =~= es@);
    assert(out0 + acc =~= out0);
    while i < es.len()
        invariant
            i <= es@.len(),
            views(out@) == out0 + acc,
            scan_emojis(es@) is Some,
            scan_emojis(es@) == then_prepend(acc, scan_emojis(es@.skip(i as int))),
        decreases es.len() - i,
    {
        let ghost rest = es@.skip(i as int);
        assert(rest.drop_first() =~= es@.skip(i + 1));
        assert(rest[0] == es@[i as int]);
        match &es[i] {
            JsonField::Object(ms) => {
                match find_member(ms, "url") {
                    Some(k) => {
                        match &ms[k].1 {
                            JsonField::Str(u) => {
                                let ghost before = views(out@);
                                out.push(u.clone());
                                proof {
                                    assert(views(out@) =~= before + seq![u@]);
                                    lemma_then_prepend_assoc(acc, seq![u@], scan_emojis(es@.skip(i + 1)));
                                    acc = acc + seq![u@];
                                    assert(views(out@) =~= out0 + acc);
                                }
                            },
                            _ => {
                                return false;
                            },
                        }
                    },
                    None => {
                        return false;
                    },
                }
            },
            JsonField::Null => {
                return false;
            },
            _ => {
                return false;
            },
        }
        i = i + 1;
    }
    assert(es@.skip(i as int) =~= Seq::<JsonField>::empty());
    assert(acc + Seq::<Seq<char>>::empty() =~= acc);
    true
}

/// Appends the URLs of a group to `out`; `false` when it is not shaped as
/// a group.
fn read_group(entries: &Vec<(String, JsonField)>, out: &mut Vec<String>) -> (ok: bool)
    requires
        scan_group(entries@) is Some,
    ensures
        match scan_group(entries@) {
            Some(Some(us)) => ok && views(final(out)@) == views(old(out)@) + us,
            _ => !ok,
        },
{
    let ghost out0 = views(out@);
    let ghost mut acc: Seq<Seq<char>> = Seq::empty();
    let mut i: usize = 0;
    assert(entries@.skip(0) =~= entries@);
    assert(out0 + acc =~= out0);
    while i < entries.len()
        invariant
            i <= entries@.len(),
            views(out@) == out0 + acc,
            scan_group(entries@) is Some,
            scan_group(entries@) == then_prepend(acc, scan_group(entries@.skip(i as int))),
        decreases entries.len() - i,
    {
        let ghost rest = entries@.skip(i as int);
        assert(rest.drop_first() =~= entries@.skip(i + 1));
        assert(rest[0] == entries@[i as int]);
        match &entries[i].1 {
            JsonField::Array(es) => {
                if !read_emojis(es, out) {
                    return false;
                }
                proof {
                    let us = scan_emojis(es@)->0->0;
                    lemma_then_prepend_assoc(acc, us, scan_group(entries@.skip(i + 1)));
                    acc = acc + us;
                    assert(views(out@) =~= out0 + acc);
                }
            },
            _ => {
                return false;
            },
        }
        i = i + 1;
    }
    assert(entries@.skip(i as int) =~= Seq::<(String, JsonField)>::empty());
    assert(acc + Seq::<Seq<char>>::empty() =~= acc);
    true
}

/// Appends the URLs of the groups to `out`; `false` when one is not shaped
/// as a group.
fn read_groups(groups: &Vec<(String, JsonField)>, out: &mut Vec<String>) -> (ok: bool)
    requires
        scan_groups(groups@) is Some,
    ensures
        match scan_groups(groups@) {
            Some(Some(us)) => ok && views(final(out)@) == views(old(out)@) + us,
            _ => !ok,
        },
{
    let ghost out0 = views(out@);
    let ghost mut acc: Seq<Seq<char>> = Seq::empty();
    let mut i: usize = 0;
    assert(groups@.skip(0) =~= groups@);
    assert(out0 + acc =~= out0);
    while i < groups.len()
        invariant
            i <= groups@.len(),
            views(out@) == out0 + acc,
            scan_groups(groups@) is Some,
            scan_groups(groups@) == then_prepend(acc, scan_groups(groups@.skip(i as int))),
        decreases groups.len() - i,
    {
        let ghost rest = groups@.skip(i as int);
        assert(rest.drop_first() =~= groups@.skip(i + 1));
        assert(rest[0] == groups@[i as int]);
        match &groups[i].1 {
            JsonField::Object(entries) => {
                if !read_group(entries, out) {
                    return false;
                }
                proof {
                    let us = scan_group(entries@)->0->0;
                    lemma_then_prepend_assoc(acc, us, scan_groups(groups@.skip(i + 1)));
                    acc = acc + us;
                    assert(views(out@) =~= out0 + acc);
                }
            },
            _ => {
                return false;
            },
        }
        i = i + 1;
    }
    assert(groups@.skip(i as int) =~= Seq::<(String, JsonField)>::empty());
    assert(acc + Seq::<Seq<char>>::empty() =~= acc);
    true
}

/// The emoji URLs the emoji file lists, in order; an error when the file
/// is not an object of groups, each an object of arrays of emojis, each an
/// object with a string `url`.
pub fn emoticon_urls(json: &JsonField) -> (res: Result<Vec<String>, EmoticonShapeError>)
    requires
        scan_emoticons(*json) is Some,
    ensures
        match scan_emoticons(*json) {
            Some(Some(us)) => res matches Ok(v) && views(v@) == us,
            _ => res is Err,
        },
{
    let mut out: Vec<String> = Vec::new();
    assert(views(out@) =~= Seq::<Seq<char>>::empty());
    match json {
        JsonField::Object(groups) => {
            if read_groups(groups, &mut out) {
                assert(views(out@) =~= scan_groups(groups@)->0->0);
                Ok(out)
            } else {
                Err(EmoticonShapeError)
            }
        },
        _ => Err(EmoticonShapeError),
    }
}

} // verus!

verus! {

/// The avatar index has three entries for each user row, in order: the
/// profile image, the large avatar and the HD avatar, each cut before its
/// first `?` (so no URL in the index has a query) and each to the row's
/// user.
pub proof fn law_avatar_index_query_free(rows: Seq<(i64, String, String, String)>)
    ensures
        avatar_entries(rows).len() == 3 * rows.len(),
        forall|j: int|
            #![trigger rows[j]]
            0 <= j < rows.len() ==> {
                &&& is_head_before(rows[j].1@, '?', avatar_entries(rows)[3 * j].0)
                &&& is_head_before(rows[j].2@, '?', avatar_entries(rows)[3 * j + 1].0)
                &&& is_head_before(rows[j].3@, '?', avatar_entries(rows)[3 * j + 2].0)
                &&& avatar_entries(rows)[3 * j].1 == rows[j].0
                &&& avatar_entries(rows)[3 * j + 1].1 == rows[j].0
                &&& avatar_entries(rows)[3 * j + 2].1 == rows[j].0
            },
        forall|i: int|
            0 <= i < avatar_entries(rows).len() ==> lacks(#[trigger] avatar_entries(rows)[i].0, '?'),
    decreases rows.len(),
{
    if rows.len() > 0 {
        let pre = rows.drop_last();
        law_avatar_index_query_free(pre);
        let r = rows.last();
        let n = pre.len();
        let e = avatar_entries(rows);
        let ep = avatar_entries(pre);
        lemma_head_of(r.1@, '?');
        lemma_head_of(r.2@, '?');
        lemma_head_of(r.3@, '?');
        assert(e == ep + seq![
            (spec_strip_url_queries(r.1@), r.0),
            (spec_strip_url_queries(r.2@), r.0),
            (spec_strip_url_queries(r.3@), r.0),
        ]);
        assert forall|j: int| #![trigger rows[j]] 0 <= j < rows.len() implies {
            &&& is_head_before(rows[j].1@, '?', e[3 * j].0)
            &&& is_head_before(rows[j].2@, '?', e[3 * j + 1].0)
            &&& is_head_before(rows[j].3@, '?', e[3 * j + 2].0)
            &&& e[3 * j].1 == rows[j].0
            &&& e[3 * j + 1].1 == rows[j].0
            &&& e[3 * j + 2].1 == rows[j].0
        } by {
            if j < n {
                assert(rows[j] == pre[j]);
                assert(e[3 * j] == ep[3 * j]);
                assert(e[3 * j + 1] == ep[3 * j + 1]);
                assert(e[3 * j + 2] == ep[3 * j + 2]);
            } else {
                assert(j == n);
                assert(rows[j] == r);
            }
        }
        assert forall|i: int| 0 <= i < e.len() implies lacks(#[trigger] e[i].0, '?') by {
            if i < ep.len() {
                assert(e[i] == ep[i]);
            }
        }
    }
}

} // verus!
