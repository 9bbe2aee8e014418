//! Turning the raw text of a post into HTML: links, mentions, topics and
//! emoji pictures.

use vstd::prelude::*;
use vstd::string::*;
use crate::pattern::{
    compile, find_all, interleave, regex_accepts, regex_matches, regex_pieces, split_all, views,
    Pattern,
};
use crate::picture::{pic_url_to_file, spec_pic_url_to_file};
use crate::strings::push_char;

verus! {

/// A short link of a post and what it stands for.
#[derive(Debug, Clone)]
pub struct UrlEntry {
    pub short_url: Option<String>,
    pub url_title: Option<String>,
    pub long_url: Option<String>,
}

/// `e` is the entry for the short link `s`.
pub open spec fn entry_is_for(e: UrlEntry, s: Seq<char>) -> bool {
    e.short_url matches Some(u) && u@ == s
}

/// `i` is the first entry for the short link `s`.
pub open spec fn is_first_entry(entries: Seq<UrlEntry>, s: Seq<char>, i: int) -> bool {
    &&& 0 <= i < entries.len()
    &&& entry_is_for(entries[i], s)
    &&& forall|j: int| 0 <= j < i ==> !entry_is_for(entries[j], s)
}

/// Some entry is for the short link `s`.
pub open spec fn has_entry(entries: Seq<UrlEntry>, s: Seq<char>) -> bool {
    exists|j: int| 0 <= j < entries.len() && entry_is_for(entries[j], s)
}

/// The first entry for the short link `s`.
pub open spec fn first_entry(entries: Seq<UrlEntry>, s: Seq<char>) -> UrlEntry {
    entries[choose|i: int| is_first_entry(entries, s, i)]
}

/// The link `s` can be rendered: either no entry is for it, or the first one
/// gives both a title and a target.
pub open spec fn url_renderable(entries: Seq<UrlEntry>, s: Seq<char>) -> bool {
    has_entry(entries, s) ==> (first_entry(entries, s).url_title is Some && first_entry(
        entries,
        s,
    ).long_url is Some)
}

/// The title shown for a link that has no entry.
pub open spec fn default_link_title() -> Seq<char> {
    "网页链接"@
}

/// The HTML of a link to `url` shown as `title`.
pub open spec fn link_html(url: Seq<char>, title: Seq<char>) -> Seq<char> {
    "<a class=\"bk-link\" target=\"_blank\" href=\""@ + url
        + "\"><img class=\"bk-icon-link\" src=\"https://h5.sinaimg.cn/upload/2015/09/25/3/timeline_card_small_web_default.png\"/>"@
        + title + "</a>"@
}

/// The HTML that replaces the link `s`.
pub open spec fn spec_url_rep(entries: Seq<UrlEntry>, s: Seq<char>) -> Seq<char> {
    if has_entry(entries, s) {
        let e = first_entry(entries, s);
        link_html(e.long_url->0@, e.url_title->0@)
    } else {
        link_html(s, default_link_title())
    }
}

/// The HTML of a mention of a user, `@name`.
pub open spec fn user_html(s: Seq<char>) -> Seq<char> {
    "<a class=\"bk-user\" href=\"https://weibo.com/n/"@ + s.drop_first() + "\">"@ + s + "</a>"@
}

/// The HTML of a topic, `#topic#`.
pub open spec fn topic_html(s: Seq<char>) -> Seq<char> {
    "<a class =\"bk-link\" href=\"https://s.weibo.com/weibo?q="@ + s + "\" target=\"_blank\">"@ + s
        + "</a>"@
}

/// The HTML of an emoji `s` whose picture is at `src`.
pub open spec fn emoji_html(s: Seq<char>, src: Seq<char>) -> Seq<char> {
    "<img class=\"bk-emoji\" alt=\""@ + s + "\" title=\""@ + s + "\" src=\""@ + src + "\" />"@
}

/// The path of file `name` inside folder `folder`, with separator `sep`.
pub open spec fn resource_path(folder: Seq<char>, sep: char, name: Seq<char>) -> Seq<char> {
    if folder.len() == 0 {
        name
    } else if folder.last() == sep {
        folder + name
    } else {
        folder + seq![sep] + name
    }
}

/// `s` starts with a one-byte character, so that dropping it is dropping
/// one byte.
pub open spec fn starts_with_ascii(s: Seq<char>) -> bool {
    s.len() > 0 && (s[0] as u32) < 128
}

/// The emoji phrases of the site, such as `[doge]`, and their picture URLs.
#[derive(Debug)]
pub struct EmojiMap {
    entries: Vec<(String, String)>,
}

impl EmojiMap {
    /// No phrase occurs twice.
    #[verifier::type_invariant]
    closed spec fn phrases_unique(self) -> bool {
        forall|i: int, j: int|
            0 <= i < j < self.entries@.len() ==> self.entries@[i].0@ != self.entries@[j].0@
    }

    /// Position of `k` among the phrases.
    closed spec fn pos_of(self, k: Seq<char>) -> int {
        choose|i: int| 0 <= i < self.entries@.len() && self.entries@[i].0@ == k
    }

    /// The phrases and their URLs.
    pub closed spec fn view(&self) -> Map<Seq<char>, Seq<char>> {
        Map::new(
            |k: Seq<char>| exists|i: int| 0 <= i < self.entries@.len() && self.entries@[i].0@ == k,
            |k: Seq<char>| self.entries@[self.pos_of(k)].1@,
        )
    }

    /// An empty map.
    pub fn new() -> (res: Self)
        ensures
            res@ == Map::<Seq<char>, Seq<char>>::empty(),
    {
        let res = EmojiMap { entries: Vec::new() };
        assert(res@ =~= Map::<Seq<char>, Seq<char>>::empty());
        res
    }

    /// Number of phrases.
    pub fn len(&self) -> (n: usize)
        ensures
            n == self@.dom().len(),
    {
        proof {
            use_type_invariant(self);
            self.lemma_dom_len();
        }
        self.entries.len()
    }

    proof fn lemma_dom_len(&self)
        requires
            self.phrases_unique(),
        ensures
            self@.dom().finite(),
            self@.dom().len() == self.entries@.len(),
    {
        let keys = self.entries@.map_values(|e: (String, String)| e.0@);
        assert(keys.no_duplicates()) by {
            assert forall|i: int, j: int| 0 <= i < keys.len() && 0 <= j < keys.len() && i != j
                implies keys[i] != keys[j] by {
                if i < j {
                    assert(self.entries@[i].0@ != self.entries@[j].0@);
                } else {
                    assert(self.entries@[j].0@ != self.entries@[i].0@);
                }
            }
        }
        assert(self@.dom() =~= keys.to_set()) by {
            assert forall|k: Seq<char>| self@.dom().contains(k) implies keys.to_set().contains(k) by {
                let i = choose|i: int| 0 <= i < self.entries@.len() && self.entries@[i].0@ == k;
                assert(keys[i] == k);
            }
            assert forall|k: Seq<char>| keys.to_set().contains(k) implies self@.dom().contains(k) by {
                let i = choose|i: int| 0 <= i < keys.len() && keys[i] == k;
                assert(self.entries@[i].0@ == k);
            }
        }
        keys.unique_seq_to_set();
    }

    /// The URL of the emoji `phrase`, if it is known.
    pub fn get(&self, phrase: &String) -> (res: Option<&String>)
        ensures
            match res {
                Some(u) => self@.contains_key(phrase@) && u@ == self@[phrase@],
                None => !self@.contains_key(phrase@),
            },
    {
        proof {
            use_type_invariant(self);
        }
        let mut i: usize = 0;
        while i < self.entries.len()
            invariant
                i <= self.entries@.len(),
                self.phrases_unique(),
                forall|j: int| 0 <= j < i ==> self.entries@[j].0@ != phrase@,
            decreases self.entries.len() - i,
        {
            if self.entries[i].0.eq(phrase) {
                proof {
                    let k = self.pos_of(phrase@);
                    assert(0 <= k < self.entries@.len() && self.entries@[k].0@ == phrase@);
                    if k != i {
                        if k < i {
                            assert(self.entries@[k].0@ != self.entries@[i as int].0@);
                        } else {
                            assert(self.entries@[i as int].0@ != self.entries@[k].0@);
                        }
                    }
                }
                return Some(&self.entries[i].1);
            }
            i = i + 1;
        }
        None
    }

    /// Records that `phrase` shows the picture at `url`, replacing what was
    /// recorded for it before.
    pub fn insert(&mut self, phrase: String, url: String)
        ensures
            final(self)@ == old(self)@.insert(phrase@, url@),
    {
        proof {
            use_type_invariant(&*self);
        }
        let ghost old_view = self@;
        let mut entries: Vec<(String, String)> = Vec::new();
        std::mem::swap(&mut entries, &mut self.entries);
        let ghost before = entries@;
        assert(before == old(self).entries@);
        let mut i: usize = 0;
        while i < entries.len()
            invariant
                entries@ == before,
                forall|a: int, b: int| 0 <= a < b < before.len() ==> before[a].0@ != before[b].0@,
                i <= entries@.len(),
                forall|j: int| 0 <= j < i ==> entries@[j].0@ != phrase@,
            ensures
                entries@ == before,
                i <= entries@.len(),
                forall|j: int| 0 <= j < i ==> entries@[j].0@ != phrase@,
                i < entries@.len() ==> entries@[i as int].0@ == phrase@,
            decreases entries.len() - i,
        {
            if entries[i].0.eq(&phrase) {
                break;
            }
            i = i + 1;
        }
        if i < entries.len() {
            entries.remove(i);
            assert(entries@ == before.remove(i as int));
            proof {
                assert forall|j: int| 0 <= j < entries@.len() implies entries@[j].0@ != phrase@ by {
                    if j < i {
                        assert(entries@[j] == before[j]);
                    } else {
                        assert(entries@[j] == before[j + 1]);
                        assert(before[i as int].0@ != before[j + 1].0@);
                    }
                }
            }
        }
        let ghost mid = entries@;
        assert(i < before.len() ==> mid == before.remove(i as int));
        assert(i >= before.len() ==> mid == before);
        assert(forall|j: int| 0 <= j < mid.len() ==> mid[j].0@ != phrase@);
        let ghost phrase_v = phrase@;
        let ghost url_v = url@;
        entries.push((phrase, url));
        proof {
            assert forall|a: int, b: int| 0 <= a < b < entries@.len() implies entries@[a].0@
                != entries@[b].0@ by {
                if b == entries@.len() - 1 {
                    assert(entries@[a] == mid[a]);
                } else {
                    let aa = if i < before.len() && a >= i { a + 1 } else { a };
                    let bb = if i < before.len() && b >= i { b + 1 } else { b };
                    assert(entries@[a] == before[aa]);
                    assert(entries@[b] == before[bb]);
                }
            }
        }
        assert(entries@.len() == mid.len() + 1);
        assert(forall|j: int| 0 <= j < mid.len() ==> entries@[j] == mid[j]);
        assert(entries@.last().0@ == phrase_v && entries@.last().1@ == url_v);
        self.entries = entries;
        proof {
            assert forall|k: Seq<char>| #[trigger] old_view.insert(phrase_v, url_v).contains_key(k)
                implies self@.contains_key(k) && self@[k] == old_view.insert(phrase_v, url_v)[k] by {
                if k == phrase_v {
                    self.lemma_view_at((self.entries@.len() - 1) as int);
                } else {
                    let j = choose|j: int| 0 <= j < before.len() && before[j].0@ == k;
                    old(self).lemma_view_at(j);
                    let jj = if i < before.len() && j > i { j - 1 } else { j };
                    assert(self.entries@[jj] == before[j]);
                    self.lemma_view_at(jj);
                }
            }
            assert forall|k: Seq<char>| self@.contains_key(k) implies old_view.insert(
                phrase_v,
                url_v,
            ).contains_key(k) by {
                let j = choose|j: int| 0 <= j < self.entries@.len() && self.entries@[j].0@ == k;
                if k != phrase_v {
                    let jj = if i < before.len() && j >= i { j + 1 } else { j };
                    assert(before[jj] == self.entries@[j]);
                    old(self).lemma_view_at(jj);
                }
            }
            assert(self@ =~= old_view.insert(phrase_v, url_v));
        }
    }

    proof fn lemma_view_at(&self, i: int)
        requires
            self.phrases_unique(),
            0 <= i < self.entries@.len(),
        ensures
            self@.contains_key(self.entries@[i].0@),
            self@[self.entries@[i].0@] == self.entries@[i].1@,
    {
        let k = self.entries@[i].0@;
        assert(self@.contains_key(k));
        let p = self.pos_of(k);
        if p != i {
            if p < i {
                assert(self.entries@[p].0@ != self.entries@[i].0@);
            } else {
                assert(self.entries@[i].0@ != self.entries@[p].0@);
            }
        }
    }
}

/// Position of the first entry for the short link `s`, if any.
pub fn find_entry(entries: &Vec<UrlEntry>, s: &String) -> (res: Option<usize>)
    ensures
        match res {
            Some(i) => is_first_entry(entries@, s@, i as int),
            None => !has_entry(entries@, s@),
        },
{
    let mut i: usize = 0;
    while i < entries.len()
        invariant
            i <= entries@.len(),
            forall|j: int| 0 <= j < i ==> !entry_is_for(entries@[j], s@),
        decreases entries.len() - i,
    {
        match &entries[i].short_url {
            Some(u) => {
                if u.eq(s) {
                    return Some(i);
                }
            },
            None => {},
        }
        i = i + 1;
    }
    None
}

/// The first entry for a short link is unique.
pub proof fn lemma_first_entry(entries: Seq<UrlEntry>, s: Seq<char>, i: int)
    requires
        is_first_entry(entries, s, i),
    ensures
        has_entry(entries, s),
        first_entry(entries, s) == entries[i],
{
    let k = choose|k: int| is_first_entry(entries, s, k);
    assert(is_first_entry(entries, s, k));
    if k < i {
        assert(!entry_is_for(entries[k], s));
    }
    if i < k {
        assert(!entry_is_for(entries[i], s));
    }
}

/// Whether the short link `s` can be rendered from `entries`.
pub fn url_is_renderable(entries: &Vec<UrlEntry>, s: &String) -> (b: bool)
    ensures
        b == url_renderable(entries@, s@),
{
    match find_entry(entries, s) {
        Some(i) => {
            proof {
                lemma_first_entry(entries@, s@, i as int);
            }
            entries[i].url_title.is_some() && entries[i].long_url.is_some()
        },
        None => true,
    }
}

/// The HTML of a web link: its title and target come from the first entry
/// for it, or are the link itself shown as "网页链接".
pub fn trans_url(s: &String, entries: &Vec<UrlEntry>) -> (res: String)
    requires
        url_renderable(entries@, s@),
    ensures
        res@ == spec_url_rep(entries@, s@),
{
    let (url, title) = match find_entry(entries, s) {
        Some(i) => {
            proof {
                lemma_first_entry(entries@, s@, i as int);
            }
            let url = match &entries[i].long_url {
                Some(u) => u.as_str(),
                None => s.as_str(),
            };
            let title = match &entries[i].url_title {
                Some(t) => t.as_str(),
                None => "网页链接",
            };
            (url, title)
        },
        None => (s.as_str(), "网页链接"),
    };
    let mut res = String::from_str("<a class=\"bk-link\" target=\"_blank\" href=\"");
    res.append(url);
    res.append(
        "\"><img class=\"bk-icon-link\" src=\"https://h5.sinaimg.cn/upload/2015/09/25/3/timeline_card_small_web_default.png\"/>",
    );
    res.append(title);
    res.append("</a>");
    res
}

/// The HTML of a mention `@name`.
pub fn trans_user(s: &str) -> (res: String)
    requires
        starts_with_ascii(s@),
    ensures
        res@ == user_html(s@),
{
    let n = s.unicode_len();
    let name = s.substring_char(1, n);
    assert(name@ =~= s@.drop_first());
    let mut res = String::from_str("<a class=\"bk-user\" href=\"https://weibo.com/n/");
    res.append(name);
    res.append("\">");
    res.append(s);
    res.append("</a>");
    res
}

/// The HTML of a topic `#topic#`.
pub fn trans_topic(s: &str) -> (res: String)
    ensures
        res@ == topic_html(s@),
{
    let mut res = String::from_str("<a class =\"bk-link\" href=\"https://s.weibo.com/weibo?q=");
    res.append(s);
    res.append("\" target=\"_blank\">");
    res.append(s);
    res.append("</a>");
    res
}

/// The path of file `name` inside folder `folder`.
pub fn join_resource_path(folder: &str, sep: char, name: &str) -> (res: String)
    ensures
        res@ == resource_path(folder@, sep, name@),
{
    let n = folder.unicode_len();
    if n == 0 {
        String::from_str(name)
    } else if folder.get_char(n - 1) == sep {
        let mut res = String::from_str(folder);
        res.append(name);
        res
    } else {
        let mut res = String::from_str(folder);
        push_char(&mut res, sep);
        res.append(name);
        res
    }
}

/// Concatenates `pieces` with `seps` between them.
pub fn splice(pieces: &Vec<String>, seps: &Vec<String>) -> (res: String)
    requires
        pieces@.len() == seps@.len() + 1,
    ensures
        res@ == interleave(views(pieces@), views(seps@)),
{
    let mut res = pieces[0].clone();
    let n = seps.len();
    let mut i: usize = 0;
    proof {
        assert(views(pieces@).take(1).drop_last() =~= views(pieces@).take(0));
        reveal_with_fuel(interleave, 1);
    }
    while i < n
        invariant
            n == seps@.len(),
            pieces@.len() == n + 1,
            i <= n,
            res@ == interleave(views(pieces@).take(i + 1), views(seps@).take(i as int)),
        decreases n - i,
    {
        res.append(seps[i].as_str());
        res.append(pieces[i + 1].as_str());
        proof {
            let p2 = views(pieces@).take(i + 2);
            let s2 = views(seps@).take(i + 1);
            assert(p2.drop_last() =~= views(pieces@).take(i + 1));
            assert(s2.drop_last() =~= views(seps@).take(i as int));
        }
        i = i + 1;
    }
    proof {
        assert(views(pieces@).take(n + 1) =~= views(pieces@));
        assert(views(seps@).take(n as int) =~= views(seps@));
    }
    res
}

/// The HTML that replaces an emoji phrase: its picture when the phrase is
/// known, else the phrase itself.
pub open spec fn spec_emoji_rep(
    emojis: Map<Seq<char>, Seq<char>>,
    folder: Seq<char>,
    sep: char,
    s: Seq<char>,
) -> Seq<char> {
    if emojis.contains_key(s) {
        emoji_html(s, resource_path(folder, sep, spec_pic_url_to_file(emojis[s])))
    } else {
        s
    }
}

/// The HTML of an emoji phrase: a picture kept as a file in `folder` when
/// the phrase is known, else the phrase itself.
pub fn trans_emoji(s: &String, emojis: &EmojiMap, folder: &str, sep: char) -> (res: String)
    ensures
        res@ == spec_emoji_rep(emojis@, folder@, sep, s@),
{
    match emojis.get(s) {
        Some(url) => {
            let name = pic_url_to_file(url.as_str());
            let src = join_resource_path(folder, sep, name);
            let mut res = String::from_str("<img class=\"bk-emoji\" alt=\"");
            res.append(s.as_str());
            res.append("\" title=\"");
            res.append(s.as_str());
            res.append("\" src=\"");
            res.append(src.as_str());
            res.append("\" />");
            res
        },
        None => s.clone(),
    }
}

/// A line break.
pub const NEWLINE_PATTERN: &'static str = "\\n";

/// A web link.
pub const URL_PATTERN: &'static str = "(http|https)://[a-zA-Z0-9$%&~_#/.\\-:=,?]{5,280}";

/// A mention of a user.
pub const AT_PATTERN: &'static str = "@[\\u4e00-\\u9fa5|\\uE7C7-\\uE7F3|\\w_\\-·]+";

/// An emoji phrase in brackets.
pub const EMOJI_PATTERN: &'static str = "(\\[.*?\\])";

/// An e-mail address.
pub const EMAIL_PATTERN: &'static str = "[A-Za-z0-9]+([_.][A-Za-z0-9]+)*@([A-Za-z0-9-]+\\.)+[A-Za-z]{2,6}";

/// A topic between two `#`.
pub const TOPIC_PATTERN: &'static str = "#([^#]+)#";

/// The compiled expressions that post text is rendered with.
pub struct TextPatterns {
    newline: Pattern,
    url: Pattern,
    at: Pattern,
    emoji: Pattern,
    email: Pattern,
    topic: Pattern,
}

impl TextPatterns {
    /// Each expression was compiled from its pattern.
    #[verifier::type_invariant]
    closed spec fn compiled_from_constants(self) -> bool {
        &&& self.newline.source() == NEWLINE_PATTERN@
        &&& self.url.source() == URL_PATTERN@
        &&& self.at.source() == AT_PATTERN@
        &&& self.emoji.source() == EMOJI_PATTERN@
        &&& self.email.source() == EMAIL_PATTERN@
        &&& self.topic.source() == TOPIC_PATTERN@
    }

    /// The patterns the expressions were compiled from: line breaks, links,
    /// mentions, emojis, e-mail addresses and topics, in this order.
    pub closed spec fn sources(&self) -> Seq<Seq<char>> {
        seq![
            self.newline.source(),
            self.url.source(),
            self.at.source(),
            self.emoji.source(),
            self.email.source(),
            self.topic.source(),
        ]
    }

    /// Compiles the patterns; `None` if the regular expression crate rejects
    /// one of them.
    pub fn new() -> (res: Option<Self>)
        ensures
            res is Some <==> (regex_accepts(NEWLINE_PATTERN@) && regex_accepts(URL_PATTERN@)
                && regex_accepts(AT_PATTERN@) && regex_accepts(EMOJI_PATTERN@) && regex_accepts(
                EMAIL_PATTERN@,
            ) && regex_accepts(TOPIC_PATTERN@)),
            res matches Some(p) ==> p.sources() == seq![
                NEWLINE_PATTERN@,
                URL_PATTERN@,
                AT_PATTERN@,
                EMOJI_PATTERN@,
                EMAIL_PATTERN@,
                TOPIC_PATTERN@,
            ],
    {
        let newline = compile(NEWLINE_PATTERN)?;
        let url = compile(URL_PATTERN)?;
        let at = compile(AT_PATTERN)?;
        let emoji = compile(EMOJI_PATTERN)?;
        let email = compile(EMAIL_PATTERN)?;
        let topic = compile(TOPIC_PATTERN)?;
        Some(TextPatterns { newline, url, at, emoji, email, topic })
    }
}

/// Why a post text could not be rendered.
#[derive(Debug, Clone, Copy, PartialEq, Eq)]
pub enum TextError {
    /// The first entry for a link lacks its title or its target.
    UnrenderableLink,
}

/// `text` with each match of `pattern` replaced by `f` of it.
pub open spec fn replace_all(
    pattern: Seq<char>,
    text: Seq<char>,
    f: spec_fn(Seq<char>) -> Seq<char>,
) -> Seq<char> {
    interleave(regex_pieces(pattern, text), regex_matches(pattern, text).map_values(f))
}

/// The first match of `pattern` in `s`, if any.
pub open spec fn first_match(pattern: Seq<char>, s: Seq<char>) -> Option<Seq<char>> {
    let ms = regex_matches(pattern, s);
    if ms.len() > 0 {
        Some(ms[0])
    } else {
        None
    }
}

/// The mentions that are really the tails of e-mail addresses in `text`.
pub open spec fn email_suffixes(text: Seq<char>) -> Seq<Seq<char>> {
    regex_matches(EMAIL_PATTERN@, text).filter_map(at_suffix())
}

/// The HTML that replaces a mention: the mention itself when it is the tail
/// of an e-mail address (or could not be a mention), else a user link.
pub open spec fn spec_user_rep(suffixes: Seq<Seq<char>>, m: Seq<char>) -> Seq<char> {
    if suffixes.contains(m) || !starts_with_ascii(m) {
        m
    } else {
        user_html(m)
    }
}

/// What replaces a line break.
pub open spec fn break_rep() -> spec_fn(Seq<char>) -> Seq<char> {
    |m: Seq<char>| "<br />"@
}

/// What replaces a link.
pub open spec fn url_rep(entries: Seq<UrlEntry>) -> spec_fn(Seq<char>) -> Seq<char> {
    |m: Seq<char>| spec_url_rep(entries, m)
}

/// What replaces a mention.
pub open spec fn user_rep(suffixes: Seq<Seq<char>>) -> spec_fn(Seq<char>) -> Seq<char> {
    |m: Seq<char>| spec_user_rep(suffixes, m)
}

/// What replaces a topic.
pub open spec fn topic_rep() -> spec_fn(Seq<char>) -> Seq<char> {
    |m: Seq<char>| topic_html(m)
}

/// What replaces an emoji phrase.
pub open spec fn emoji_rep(
    emojis: Map<Seq<char>, Seq<char>>,
    folder: Seq<char>,
    sep: char,
) -> spec_fn(Seq<char>) -> Seq<char> {
    |m: Seq<char>| spec_emoji_rep(emojis, folder, sep, m)
}

/// Every link of `text` can be rendered from `entries`.
pub open spec fn links_renderable(entries: Seq<UrlEntry>, text: Seq<char>) -> bool {
    let links = regex_matches(URL_PATTERN@, text);
    forall|i: int| 0 <= i < links.len() ==> url_renderable(entries, #[trigger] links[i])
}

/// The HTML of a post text: line breaks, then links, mentions, topics and
/// emojis, each pass over the output of the one before.
pub open spec fn spec_trans_text(
    text: Seq<char>,
    entries: Seq<UrlEntry>,
    emojis: Map<Seq<char>, Seq<char>>,
    folder: Seq<char>,
    sep: char,
) -> Result<Seq<char>, TextError> {
    let t1 = replace_all(NEWLINE_PATTERN@, text, break_rep());
    if links_renderable(entries, t1) {
        let t2 = replace_all(URL_PATTERN@, t1, url_rep(entries));
        let t3 = replace_all(AT_PATTERN@, t2, user_rep(email_suffixes(text)));
        let t4 = replace_all(TOPIC_PATTERN@, t3, topic_rep());
        Ok(replace_all(EMOJI_PATTERN@, t4, emoji_rep(emojis, folder, sep)))
    } else {
        Err(TextError::UnrenderableLink)
    }
}

/// `text` with its matches replaced by `reps`, one for one.
fn replace_matches(
    p: &Pattern,
    text: &str,
    matches: &Vec<String>,
    reps: &Vec<String>,
    Ghost(f): Ghost<spec_fn(Seq<char>) -> Seq<char>>,
) -> (res: String)
    requires
        views(matches@) == regex_matches(p.source(), text@),
        views(reps@) == views(matches@).map_values(f),
    ensures
        res@ == replace_all(p.source(), text@, f),
{
    let pieces = split_all(p, text);
    assert(reps@.len() == views(reps@).len());
    splice(&pieces, reps)
}

/// Whether `s` is one of `v`.
pub fn contains_string(v: &Vec<String>, s: &String) -> (b: bool)
    ensures
        b == views(v@).contains(s@),
{
    let mut i: usize = 0;
    while i < v.len()
        invariant
            i <= v@.len(),
            forall|j: int| 0 <= j < i ==> v@[j]@ != s@,
        decreases v.len() - i,
    {
        if v[i].eq(s) {
            assert(views(v@)[i as int] == s@);
            return true;
        }
        i = i + 1;
    }
    assert forall|j: int| 0 <= j < views(v@).len() implies views(v@)[j] != s@ by {
        assert(views(v@)[j] == v@[j]@);
    }
    false
}

/// Whether `s` starts with a one-byte character.
pub fn is_ascii_led(s: &String) -> (b: bool)
    ensures
        b == starts_with_ascii(s@),
{
    let t = s.as_str();
    if t.unicode_len() == 0 {
        false
    } else {
        (t.get_char(0) as u32) < 128
    }
}

/// One more replacement, `r`, for the match `m`, keeps `reps` in step with
/// the first `i + 1` matches.
proof fn lemma_reps_step(
    ms: Seq<Seq<char>>,
    reps_before: Seq<Seq<char>>,
    reps_after: Seq<Seq<char>>,
    i: int,
    f: spec_fn(Seq<char>) -> Seq<char>,
)
    requires
        0 <= i < ms.len(),
        reps_before == ms.take(i).map_values(f),
        reps_after == reps_before.push(f(ms[i])),
    ensures
        reps_after == ms.take(i + 1).map_values(f),
{
    assert(reps_after =~= ms.take(i + 1).map_values(f));
}

impl TextPatterns {
    /// The links of `text`, in order.
    pub fn extract_urls(&self, text: &str) -> (res: Vec<String>)
        ensures
            views(res@) == regex_matches(URL_PATTERN@, text@),
    {
        proof {
            use_type_invariant(self);
        }
        find_all(&self.url, text)
    }

    /// The emoji phrases of `text`, in order.
    pub fn extract_emojis(&self, text: &str) -> (res: Vec<String>)
        ensures
            views(res@) == regex_matches(EMOJI_PATTERN@, text@),
    {
        proof {
            use_type_invariant(self);
        }
        find_all(&self.emoji, text)
    }

    /// `text` with its line breaks as `<br />`.
    pub fn render_breaks(&self, text: &str) -> (res: String)
        ensures
            res@ == replace_all(NEWLINE_PATTERN@, text@, break_rep()),
    {
        proof {
            use_type_invariant(self);
        }
        let ms = find_all(&self.newline, text);
        let mut reps: Vec<String> = Vec::new();
        let mut i: usize = 0;
        while i < ms.len()
            invariant
                i <= ms@.len(),
                views(reps@) == views(ms@).take(i as int).map_values(break_rep()),
            decreases ms.len() - i,
        {
            let ghost before = views(reps@);
            let r = String::from_str("<br />");
            reps.push(r);
            proof {
                assert(views(reps@) =~= before.push(break_rep()(views(ms@)[i as int])));
                lemma_reps_step(views(ms@), before, views(reps@), i as int, break_rep());
            }
            i = i + 1;
        }
        assert(views(ms@).take(ms@.len() as int) =~= views(ms@));
        replace_matches(&self.newline, text, &ms, &reps, Ghost(break_rep()))
    }

    /// `text` with its links as anchors titled from `entries`; an error when
    /// the first entry for one of them lacks its title or its target.
    pub fn render_links(&self, text: &str, entries: &Vec<UrlEntry>) -> (res: Result<
        String,
        TextError,
    >)
        ensures
            match res {
                Ok(s) => links_renderable(entries@, text@) && s@ == replace_all(
                    URL_PATTERN@,
                    text@,
                    url_rep(entries@),
                ),
                Err(e) => !links_renderable(entries@, text@) && e == TextError::UnrenderableLink,
            },
    {
        proof {
            use_type_invariant(self);
        }
        let ms = find_all(&self.url, text);
        let mut reps: Vec<String> = Vec::new();
        let mut i: usize = 0;
        while i < ms.len()
            invariant
                i <= ms@.len(),
                views(ms@) == regex_matches(URL_PATTERN@, text@),
                views(reps@) == views(ms@).take(i as int).map_values(url_rep(entries@)),
                forall|j: int|
                    0 <= j < i ==> url_renderable(entries@, #[trigger] regex_matches(
                        URL_PATTERN@,
                        text@,
                    )[j]),
            decreases ms.len() - i,
        {
            assert(views(ms@)[i as int] == ms@[i as int]@);
            if !url_is_renderable(entries, &ms[i]) {
                return Err(TextError::UnrenderableLink);
            }
            let ghost before = views(reps@);
            let r = trans_url(&ms[i], entries);
            reps.push(r);
            proof {
                assert(views(reps@) =~= before.push(url_rep(entries@)(views(ms@)[i as int])));
                lemma_reps_step(views(ms@), before, views(reps@), i as int, url_rep(entries@));
            }
            i = i + 1;
        }
        assert(views(ms@).take(ms@.len() as int) =~= views(ms@));
        Ok(replace_matches(&self.url, text, &ms, &reps, Ghost(url_rep(entries@))))
    }

    /// `text` with its mentions as links to the user, but for those in
    /// `suffixes` (the tails of e-mail addresses), which stay as they are.
    pub fn render_mentions(&self, text: &str, suffixes: &Vec<String>) -> (res: String)
        ensures
            res@ == replace_all(AT_PATTERN@, text@, user_rep(views(suffixes@))),
    {
        proof {
            use_type_invariant(self);
        }
        let ms = find_all(&self.at, text);
        let mut reps: Vec<String> = Vec::new();
        let mut i: usize = 0;
        while i < ms.len()
            invariant
                i <= ms@.len(),
                views(reps@) == views(ms@).take(i as int).map_values(user_rep(views(suffixes@))),
            decreases ms.len() - i,
        {
            let ghost before = views(reps@);
            let m = &ms[i];
            assert(views(ms@)[i as int] == m@);
            let r = if contains_string(suffixes, m) || !is_ascii_led(m) {
                m.clone()
            } else {
                trans_user(m.as_str())
            };
            reps.push(r);
            proof {
                assert(views(reps@) =~= before.push(
                    user_rep(views(suffixes@))(views(ms@)[i as int]),
                ));
                lemma_reps_step(
                    views(ms@),
                    before,
                    views(reps@),
                    i as int,
                    user_rep(views(suffixes@)),
                );
            }
            i = i + 1;
        }
        assert(views(ms@).take(ms@.len() as int) =~= views(ms@));
        replace_matches(&self.at, text, &ms, &reps, Ghost(user_rep(views(suffixes@))))
    }

    /// `text` with its topics as links to a search.
    pub fn render_topics(&self, text: &str) -> (res: String)
        ensures
            res@ == replace_all(TOPIC_PATTERN@, text@, topic_rep()),
    {
        proof {
            use_type_invariant(self);
        }
        let ms = find_all(&self.topic, text);
        let mut reps: Vec<String> = Vec::new();
        let mut i: usize = 0;
        while i < ms.len()
            invariant
                i <= ms@.len(),
                views(reps@) == views(ms@).take(i as int).map_values(topic_rep()),
            decreases ms.len() - i,
        {
            let ghost before = views(reps@);
            assert(views(ms@)[i as int] == ms@[i as int]@);
            let r = trans_topic(ms[i].as_str());
            reps.push(r);
            proof {
                assert(views(reps@) =~= before.push(topic_rep()(views(ms@)[i as int])));
                lemma_reps_step(views(ms@), before, views(reps@), i as int, topic_rep());
            }
            i = i + 1;
        }
        assert(views(ms@).take(ms@.len() as int) =~= views(ms@));
        replace_matches(&self.topic, text, &ms, &reps, Ghost(topic_rep()))
    }

    /// `text` with its known emoji phrases as pictures kept in `folder`.
    pub fn render_emojis(&self, text: &str, emojis: &EmojiMap, folder: &str, sep: char) -> (res:
        String)
        ensures
            res@ == replace_all(EMOJI_PATTERN@, text@, emoji_rep(emojis@, folder@, sep)),
    {
        proof {
            use_type_invariant(self);
        }
        let ms = find_all(&self.emoji, text);
        let mut reps: Vec<String> = Vec::new();
        let mut i: usize = 0;
        while i < ms.len()
            invariant
                i <= ms@.len(),
                views(reps@) == views(ms@).take(i as int).map_values(
                    emoji_rep(emojis@, folder@, sep),
                ),
            decreases ms.len() - i,
        {
            let ghost before = views(reps@);
            assert(views(ms@)[i as int] == ms@[i as int]@);
            let r = trans_emoji(&ms[i], emojis, folder, sep);
            reps.push(r);
            proof {
                assert(views(reps@) =~= before.push(
                    emoji_rep(emojis@, folder@, sep)(views(ms@)[i as int]),
                ));
                lemma_reps_step(
                    views(ms@),
                    before,
                    views(reps@),
                    i as int,
                    emoji_rep(emojis@, folder@, sep),
                );
            }
            i = i + 1;
        }
        assert(views(ms@).take(ms@.len() as int) =~= views(ms@));
        replace_matches(&self.emoji, text, &ms, &reps, Ghost(emoji_rep(emojis@, folder@, sep)))
    }

    /// Renders the raw text of a post as HTML: line breaks become `<br />`,
    /// links become anchors titled from `entries`, mentions (but not the
    /// tails of e-mail addresses) link to the user, topics link to a search,
    /// and known emoji phrases become pictures kept in `folder`. Fails only
    /// when the first entry for a link lacks its title or its target.
    pub fn trans_text(
        &self,
        text: &str,
        entries: &Vec<UrlEntry>,
        emojis: &EmojiMap,
        folder: &str,
        sep: char,
    ) -> (res: Result<String, TextError>)
        ensures
            match res {
                Ok(s) => spec_trans_text(text@, entries@, emojis@, folder@, sep) == Ok::<
                    Seq<char>,
                    TextError,
                >(s@),
                Err(e) => spec_trans_text(text@, entries@, emojis@, folder@, sep) == Err::<
                    Seq<char>,
                    TextError,
                >(e),
            },
    {
        let suffixes = self.email_suffixes(text);
        let t1 = self.render_breaks(text);
        let t2 = match self.render_links(t1.as_str(), entries) {
            Ok(t) => t,
            Err(e) => {
                return Err(e);
            },
        };
        let t3 = self.render_mentions(t2.as_str(), &suffixes);
        let t4 = self.render_topics(t3.as_str());
        let t5 = self.render_emojis(t4.as_str(), emojis, folder, sep);
        Ok(t5)
    }

    /// The picture URLs of the known emoji phrases of `text`, in order.
    pub fn extract_emoji_urls(&self, text: &str, emojis: &EmojiMap) -> (res: Vec<String>)
        ensures
            views(res@) == regex_matches(EMOJI_PATTERN@, text@).filter_map(known_emoji(emojis@)),
    {
        let phrases = self.extract_emojis(text);
        let mut res: Vec<String> = Vec::new();
        let mut i: usize = 0;
        while i < phrases.len()
            invariant
                i <= phrases@.len(),
                views(res@) == views(phrases@).take(i as int).filter_map(known_emoji(emojis@)),
            decreases phrases.len() - i,
        {
            let ghost before = views(res@);
            proof {
                assert(views(phrases@).take(i + 1).drop_last() =~= views(phrases@).take(i as int));
                assert(views(phrases@).take(i + 1).last() == phrases@[i as int]@);
            }
            match emojis.get(&phrases[i]) {
                Some(url) => {
                    res.push(url.clone());
                    assert(views(res@) =~= before + seq![url@]);
                },
                None => {
                    assert(views(res@) =~= before);
                },
            }
            i = i + 1;
        }
        assert(views(phrases@).take(phrases@.len() as int) =~= views(phrases@));
        res
    }

    /// The tails of e-mail addresses in `text` that look like mentions.
    pub fn email_suffixes(&self, text: &str) -> (res: Vec<String>)
        ensures
            views(res@) == email_suffixes(text@),
    {
        proof {
            use_type_invariant(self);
        }
        let emails = find_all(&self.email, text);
        let mut res: Vec<String> = Vec::new();
        let mut i: usize = 0;
        while i < emails.len()
            invariant
                i <= emails@.len(),
                views(emails@) == regex_matches(EMAIL_PATTERN@, text@),
                views(res@) == views(emails@).take(i as int).filter_map(at_suffix()),
                self.at.source() == AT_PATTERN@,
            decreases emails.len() - i,
        {
            let ghost before = views(res@);
            proof {
                assert(views(emails@).take(i + 1).drop_last() =~= views(emails@).take(i as int));
                assert(views(emails@).take(i + 1).last() == emails@[i as int]@);
            }
            let inner = find_all(&self.at, emails[i].as_str());
            if inner.len() > 0 {
                res.push(inner[0].clone());
                assert(views(inner@)[0] == inner@[0]@);
                assert(views(res@) =~= before + seq![inner@[0]@]);
            } else {
                assert(views(res@) =~= before);
            }
            i = i + 1;
        }
        assert(views(emails@).take(emails@.len() as int) =~= views(emails@));
        res
    }
}

/// The picture URL of an emoji phrase, if it is known.
pub open spec fn known_emoji(emojis: Map<Seq<char>, Seq<char>>) -> spec_fn(Seq<char>) -> Option<
    Seq<char>,
> {
    |m: Seq<char>|
        if emojis.contains_key(m) {
            Some(emojis[m])
        } else {
            None
        }
}

/// The first mention inside an e-mail address.
pub open spec fn at_suffix() -> spec_fn(Seq<char>) -> Option<Seq<char>> {
    |e: Seq<char>| first_match(AT_PATTERN@, e)
}

} // verus!
