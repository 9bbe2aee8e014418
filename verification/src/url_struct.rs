//! The link cards (`url_struct`) of a post that retweets another: the site
//! sends one list for both, and each text gets the cards of its own links.

use vstd::prelude::*;
use crate::json_record::{
    first_key_index, json_view, lemma_first_index, lemma_object_view, members_view, JsonField,
    JsonView,
};
use crate::mobile::v_get;
use crate::pattern::{regex_matches, views};
use crate::html_text::{TextPatterns, URL_PATTERN};

verus! {

/// The mathematical values of `items`.
pub open spec fn item_views(items: Seq<JsonField>) -> Seq<JsonView> {
    items.map_values(|x: JsonField| json_view(x))
}

/// The short link a card is for: its `short_url` member, when that is a
/// string.
pub open spec fn short_url_of(item: JsonView) -> Option<Seq<char>> {
    match v_get(item, "short_url"@) {
        Some(JsonView::Str(s)) => Some(s),
        _ => None,
    }
}

/// The card that looking up `url` finds among `cards`: the last one for it,
/// as a map filled in order keeps it.
pub open spec fn last_card_for(cards: Seq<JsonView>, url: Seq<char>) -> Option<JsonView>
    decreases cards.len(),
{
    if cards.len() == 0 {
        None
    } else if short_url_of(cards.last()) == Some(url) {
        Some(cards.last())
    } else {
        last_card_for(cards.drop_last(), url)
    }
}

/// The cards for the links `urls`, in their order, a link without a card
/// giving none.
pub open spec fn cards_for(cards: Seq<JsonView>, urls: Seq<Seq<char>>) -> Seq<JsonView>
    decreases urls.len(),
{
    if urls.len() == 0 {
        Seq::empty()
    } else {
        cards_for(cards, urls.drop_last()) + match last_card_for(cards, urls.last()) {
            Some(c) => seq![c],
            None => Seq::empty(),
        }
    }
}

/// The card lists of a post and of the post it retweets, after the post's
/// list is shared out: each gets the cards of its text's links, or keeps
/// what it had (the retweet) or nothing (the post) when there are none. A
/// list of the post that is not an array is dropped.
pub open spec fn spec_share_cards(
    post_cards: Option<JsonView>,
    post_links: Seq<Seq<char>>,
    retweet_cards: Option<JsonView>,
    retweet_links: Seq<Seq<char>>,
) -> (Option<JsonView>, Option<JsonView>) {
    match post_cards {
        Some(JsonView::Array(cards)) => {
            let mine = cards_for(cards, post_links);
            let theirs = cards_for(cards, retweet_links);
            (
                if mine.len() > 0 {
                    Some(JsonView::Array(mine))
                } else {
                    None
                },
                if theirs.len() > 0 {
                    Some(JsonView::Array(theirs))
                } else {
                    retweet_cards
                },
            )
        },
        _ => (None, retweet_cards),
    }
}

/// The mathematical value of an optional JSON value.
pub open spec fn opt_json_view(v: Option<JsonField>) -> Option<JsonView> {
    match v {
        Some(f) => Some(json_view(f)),
        None => None,
    }
}

/// The short link that `item` is for.
pub fn short_url(item: &JsonField) -> (res: Option<&String>)
    ensures
        match res {
            Some(s) => short_url_of(json_view(*item)) == Some(s@),
            None => short_url_of(json_view(*item)) is None,
        },
{
    match item {
        JsonField::Object(ms) => {
            proof {
                lemma_object_view(*ms);
                lemma_first_index(members_view(ms@), "short_url"@);
            }
            match first_key_index(ms, "short_url") {
                Some(i) => {
                    assert(members_view(ms@)[i as int].1 == json_view(ms@[i as int].1));
                    match &ms[i].1 {
                        JsonField::Str(s) => Some(s),
                        _ => None,
                    }
                },
                None => None,
            }
        },
        _ => None,
    }
}

/// Position of the card that looking up `url` finds.
fn last_card_index(cards: &Vec<JsonField>, url: &String) -> (res: Option<usize>)
    ensures
        match res {
            Some(i) => i < cards@.len() && last_card_for(item_views(cards@), url@) == Some(
                json_view(cards@[i as int]),
            ),
            None => last_card_for(item_views(cards@), url@) is None,
        },
{
    let ghost all = item_views(cards@);
    let mut j: usize = cards.len();
    assert(all.take(j as int) =~= all);
    while j > 0
        invariant
            j <= cards@.len(),
            all == item_views(cards@),
            last_card_for(all, url@) == last_card_for(all.take(j as int), url@),
        decreases j,
    {
        let ghost pre = all.take(j as int);
        assert(pre.drop_last() =~= all.take(j - 1));
        assert(pre.last() == json_view(cards@[j - 1]));
        match short_url(&cards[j - 1]) {
            Some(s) => {
                if s.eq(url) {
                    return Some(j - 1);
                }
            },
            None => {},
        }
        j = j - 1;
    }
    assert(all.take(0) =~= Seq::<JsonView>::empty());
    None
}

/// Copies of the cards for the links `urls`, in their order.
pub fn cards_for_links(cards: &Vec<JsonField>, urls: &Vec<String>) -> (res: Vec<JsonField>)
    ensures
        item_views(res@) == cards_for(item_views(cards@), views(urls@)),
{
    let ghost all = item_views(cards@);
    let ghost links = views(urls@);
    let mut out: Vec<JsonField> = Vec::new();
    let mut i: usize = 0;
    assert(links.take(0) =~= Seq::<Seq<char>>::empty());
    assert(item_views(out@) =~= Seq::<JsonView>::empty());
    while i < urls.len()
        invariant
            i <= urls@.len(),
            all == item_views(cards@),
            links == views(urls@),
            item_views(out@) == cards_for(all, links.take(i as int)),
        decreases urls.len() - i,
    {
        let ghost pre = links.take(i + 1);
        assert(pre.drop_last() =~= links.take(i as int));
        assert(pre.last() == urls@[i as int]@);
        let ghost before = out@;
        match last_card_index(cards, &urls[i]) {
            Some(k) => {
                let c = crate::json_record::json_clone(&cards[k]);
                out.push(c);
                assert(item_views(out@) =~= item_views(before).push(json_view(c)));
            },
            None => {
                assert(cards_for(all, pre) =~= cards_for(all, links.take(i as int)));
            },
        }
        i = i + 1;
    }
    assert(links.take(urls@.len() as int) =~= links);
    out
}

/// Shares the card list `post_cards` of a post out between the post and the
/// post it retweets, by the links that `post_text` and `retweet_text` hold;
/// returns the new lists of the post and of the retweet.
pub fn share_cards(
    patterns: &TextPatterns,
    post_cards: Option<JsonField>,
    post_text: &str,
    retweet_cards: Option<JsonField>,
    retweet_text: &str,
) -> (res: (Option<JsonField>, Option<JsonField>))
    ensures
        (opt_json_view(res.0), opt_json_view(res.1)) == spec_share_cards(
            opt_json_view(post_cards),
            regex_matches(URL_PATTERN@, post_text@),
            opt_json_view(retweet_cards),
            regex_matches(URL_PATTERN@, retweet_text@),
        ),
{
    match post_cards {
        Some(JsonField::Array(cards)) => {
            proof {
                crate::json_record::lemma_array_view(cards);
            }
            let post_links = patterns.extract_urls(post_text);
            let retweet_links = patterns.extract_urls(retweet_text);
            let mine = cards_for_links(&cards, &post_links);
            let theirs = cards_for_links(&cards, &retweet_links);
            assert(item_views(cards@) == cards@.map_values(|x: JsonField| json_view(x)));
            let ghost mine_v = item_views(mine@);
            let ghost theirs_v = item_views(theirs@);
            let new_post = if mine.len() > 0 {
                proof {
                    crate::json_record::lemma_array_view(mine);
                }
                Some(JsonField::Array(mine))
            } else {
                None
            };
            let new_retweet = if theirs.len() > 0 {
                proof {
                    crate::json_record::lemma_array_view(theirs);
                }
                Some(JsonField::Array(theirs))
            } else {
                retweet_cards
            };
            (new_post, new_retweet)
        },
        _ => (None, retweet_cards),
    }
}

/// Every card that a list of links picks is a card of the list whose short
/// link is one of those links.
pub proof fn law_cards_come_from_links(cards: Seq<JsonView>, urls: Seq<Seq<char>>, k: int)
    requires
        0 <= k < cards_for(cards, urls).len(),
    ensures
        exists|i: int, u: int|
            0 <= i < cards.len() && 0 <= u < urls.len() && cards[i] == cards_for(cards, urls)[k]
                && short_url_of(cards[i]) == Some(urls[u]),
    decreases urls.len(),
{
    let pre = cards_for(cards, urls.drop_last());
    if k < pre.len() {
        law_cards_come_from_links(cards, urls.drop_last(), k);
        let (i, u) = choose|i: int, u: int|
            0 <= i < cards.len() && 0 <= u < urls.drop_last().len() && cards[i] == pre[k]
                && short_url_of(cards[i]) == Some(urls.drop_last()[u]);
        assert(cards_for(cards, urls)[k] == pre[k]);
        assert(urls[u] == urls.drop_last()[u]);
    } else {
        let u = urls.len() - 1;
        lemma_last_card_in(cards, urls[u]);
        let i = choose|i: int|
            0 <= i < cards.len() && last_card_for(cards, urls[u]) == Some(cards[i])
                && short_url_of(cards[i]) == Some(urls[u]);
        assert(cards_for(cards, urls)[k] == cards[i]);
    }
}

/// A card found for `url` is a card of the list that is for `url`.
proof fn lemma_last_card_in(cards: Seq<JsonView>, url: Seq<char>)
    ensures
        last_card_for(cards, url) is Some ==> exists|i: int|
            0 <= i < cards.len() && last_card_for(cards, url) == Some(cards[i])
                && short_url_of(cards[i]) == Some(url),
    decreases cards.len(),
{
    if cards.len() > 0 {
        if short_url_of(cards.last()) == Some(url) {
            assert(cards.last() == cards[cards.len() - 1]);
        } else {
            lemma_last_card_in(cards.drop_last(), url);
            if last_card_for(cards, url) is Some {
                let i = choose|i: int|
                    0 <= i < cards.drop_last().len() && last_card_for(cards.drop_last(), url)
                        == Some(cards.drop_last()[i]) && short_url_of(cards.drop_last()[i])
                        == Some(url);
                assert(cards.drop_last()[i] == cards[i]);
            }
        }
    }
}

} // verus!

verus! {

/// Position of the card that looking up `url` finds among `cards`: the last
/// one for it.
pub open spec fn last_card_pos(cards: Seq<JsonView>, url: Seq<char>) -> Option<int>
    decreases cards.len(),
{
    if cards.len() == 0 {
        None
    } else if short_url_of(cards.last()) == Some(url) {
        Some(cards.len() - 1)
    } else {
        last_card_pos(cards.drop_last(), url)
    }
}

/// The card found at `last_card_pos` is the one `last_card_for` gives, and
/// it is for `url`.
pub proof fn lemma_last_card_pos(cards: Seq<JsonView>, url: Seq<char>)
    ensures
        match last_card_pos(cards, url) {
            Some(i) => 0 <= i < cards.len() && short_url_of(cards[i]) == Some(url)
                && last_card_for(cards, url) == Some(cards[i]),
            None => last_card_for(cards, url) is None,
        },
    decreases cards.len(),
{
    if cards.len() > 0 && short_url_of(cards.last()) != Some(url) {
        lemma_last_card_pos(cards.drop_last(), url);
    }
}

/// Every card of `cards` has a short link.
pub open spec fn all_have_short_url(cards: Seq<JsonView>) -> bool {
    forall|i: int| 0 <= i < cards.len() ==> (#[trigger] short_url_of(cards[i])) is Some
}

/// The cards by short link, as a map filled in order holds them.
pub open spec fn card_index(cards: Seq<JsonView>) -> Map<Seq<char>, JsonView> {
    Map::new(
        |k: Seq<char>| last_card_for(cards, k) is Some,
        |k: Seq<char>| last_card_for(cards, k)->0,
    )
}

/// Takes the cards for the links `urls` out of `index`, in the links' order:
/// a card is taken once, by the first link for it. Gives the cards taken and
/// what is left.
pub open spec fn take_cards(index: Map<Seq<char>, JsonView>, urls: Seq<Seq<char>>) -> (
    Seq<JsonView>,
    Map<Seq<char>, JsonView>,
)
    decreases urls.len(),
{
    if urls.len() == 0 {
        (Seq::empty(), index)
    } else {
        let (got, left) = take_cards(index, urls.drop_last());
        let u = urls.last();
        if left.contains_key(u) {
            (got.push(left[u]), left.remove(u))
        } else {
            (got, left)
        }
    }
}

/// Why a card list cannot be shared out.
#[derive(Debug, Clone, Copy, PartialEq, Eq)]
pub enum CardError {
    /// A card has no short link.
    NoShortLink,
    /// The text of the retweet or of the post is missing.
    NoText,
}

/// The cards not yet taken, by short link.
pub open spec fn untaken(cards: Seq<JsonView>, taken: Seq<bool>) -> Map<Seq<char>, JsonView> {
    Map::new(
        |k: Seq<char>| last_card_pos(cards, k) is Some && !taken[last_card_pos(cards, k)->0],
        |k: Seq<char>| cards[last_card_pos(cards, k)->0],
    )
}

/// Position of the card that looking up `url` finds, as `last_card_pos`
/// gives it.
fn last_card_position(cards: &Vec<JsonField>, url: &String) -> (res: Option<usize>)
    ensures
        match res {
            Some(i) => last_card_pos(item_views(cards@), url@) == Some(i as int),
            None => last_card_pos(item_views(cards@), url@) is None,
        },
{
    let ghost all = item_views(cards@);
    let mut j: usize = cards.len();
    assert(all.take(j as int) =~= all);
    while j > 0
        invariant
            j <= cards@.len(),
            all == item_views(cards@),
            forall|k: int| j <= k < cards@.len() ==> short_url_of(all[k]) != Some(url@),
            last_card_pos(all, url@) == last_card_pos(all.take(j as int), url@),
        decreases j,
    {
        let ghost pre = all.take(j as int);
        assert(pre.drop_last() =~= all.take(j - 1));
        assert(pre.last() == json_view(cards@[j - 1]));
        match short_url(&cards[j - 1]) {
            Some(s) => {
                if s.eq(url) {
                    return Some(j - 1);
                }
            },
            None => {},
        }
        j = j - 1;
    }
    assert(all.take(0) =~= Seq::<JsonView>::empty());
    None
}

/// Takes copies of the cards for the links `urls` that are not taken yet,
/// marking them taken.
fn take_cards_for_links(cards: &Vec<JsonField>, taken: &mut Vec<bool>, urls: &Vec<String>) -> (res:
    Vec<JsonField>)
    requires
        old(taken)@.len() == cards@.len(),
    ensures
        final(taken)@.len() == cards@.len(),
        (item_views(res@), untaken(item_views(cards@), final(taken)@)) == take_cards(
            untaken(item_views(cards@), old(taken)@),
            views(urls@),
        ),
{
    let ghost all = item_views(cards@);
    let ghost links = views(urls@);
    let ghost start = untaken(all, taken@);
    let mut out: Vec<JsonField> = Vec::new();
    let mut i: usize = 0;
    assert(links.take(0) =~= Seq::<Seq<char>>::empty());
    assert(item_views(out@) =~= Seq::<JsonView>::empty());
    while i < urls.len()
        invariant
            i <= urls@.len(),
            all == item_views(cards@),
            links == views(urls@),
            taken@.len() == cards@.len(),
            start == untaken(all, old(taken)@),
            (item_views(out@), untaken(all, taken@)) == take_cards(start, links.take(i as int)),
        decreases urls.len() - i,
    {
        let ghost pre = links.take(i + 1);
        assert(pre.drop_last() =~= links.take(i as int));
        let ghost u = urls@[i as int]@;
        assert(pre.last() == u);
        let ghost before_out = out@;
        let ghost before_taken = taken@;
        let ghost left = untaken(all, before_taken);
        match last_card_position(cards, &urls[i]) {
            Some(k) => {
                proof {
                    lemma_last_card_pos(all, u);
                }
                if !taken[k] {
                    assert(left.contains_key(u));
                    let c = crate::json_record::json_clone(&cards[k]);
                    out.push(c);
                    taken.set(k, true);
                    assert(item_views(out@) =~= item_views(before_out).push(left[u]));
                    assert forall|q: Seq<char>| q != u && #[trigger] last_card_pos(all, q) is Some
                        implies last_card_pos(all, q)->0 != k by {
                        lemma_last_card_pos(all, q);
                    }
                    assert(taken@ == before_taken.update(k as int, true));
                    assert forall|q: Seq<char>| #![auto]
                        untaken(all, taken@).contains_key(q) == left.remove(u).contains_key(q) by {
                        lemma_last_card_pos(all, q);
                        if q != u && last_card_pos(all, q) is Some {
                            assert(taken@[last_card_pos(all, q)->0] == before_taken[last_card_pos(
                                all,
                                q,
                            )->0]);
                        }
                    }
                    assert forall|q: Seq<char>| #[trigger] untaken(all, taken@).contains_key(q)
                        implies untaken(all, taken@)[q] == left.remove(u)[q] by {
                        assert(left.remove(u).contains_key(q));
                    }
                    assert(untaken(all, taken@) =~= left.remove(u));
                } else {
                    assert(!left.contains_key(u));
                }
            },
            None => {
                assert(!left.contains_key(u));
            },
        }
        i = i + 1;
    }
    assert(links.take(urls@.len() as int) =~= links);
    out
}

/// The card lists of a post and of the post it retweets after the post's
/// list `cards` is shared out: the retweet takes the cards of its links
/// first, then the post takes those of its links that are left.
pub open spec fn spec_claim_cards(
    cards: Seq<JsonView>,
    post_text: Option<Seq<char>>,
    retweet_text: Option<Seq<char>>,
) -> Result<(Seq<JsonView>, Seq<JsonView>), CardError> {
    if !all_have_short_url(cards) {
        Err(CardError::NoShortLink)
    } else {
        match (retweet_text, post_text) {
            (Some(rt), Some(pt)) => {
                let (theirs, left) = take_cards(
                    card_index(cards),
                    regex_matches(URL_PATTERN@, rt),
                );
                let (mine, _) = take_cards(left, regex_matches(URL_PATTERN@, pt));
                Ok((mine, theirs))
            },
            _ => Err(CardError::NoText),
        }
    }
}

/// Shares the card list `cards` of a post out between the post and the post
/// it retweets: the retweet takes the cards of the links of `retweet_text`,
/// then the post those of the links of `post_text` that are left. Returns
/// the new lists of the post and of the retweet.
pub fn claim_cards(
    patterns: &TextPatterns,
    cards: &Vec<JsonField>,
    post_text: Option<&str>,
    retweet_text: Option<&str>,
) -> (res: Result<(Vec<JsonField>, Vec<JsonField>), CardError>)
    ensures
        match (res, spec_claim_cards(
            item_views(cards@),
            match post_text {
                Some(t) => Some(t@),
                None => None,
            },
            match retweet_text {
                Some(t) => Some(t@),
                None => None,
            },
        )) {
            (Ok((mine, theirs)), Ok((m, t))) => item_views(mine@) == m && item_views(theirs@) == t,
            (Err(e), Err(f)) => e == f,
            _ => false,
        },
{
    let ghost all = item_views(cards@);
    let mut i: usize = 0;
    while i < cards.len()
        invariant
            i <= cards@.len(),
            all == item_views(cards@),
            forall|k: int| 0 <= k < i ==> (#[trigger] short_url_of(all[k])) is Some,
        decreases cards.len() - i,
    {
        if short_url(&cards[i]).is_none() {
            assert(short_url_of(all[i as int]) is None);
            return Err(CardError::NoShortLink);
        }
        i = i + 1;
    }
    let rt = match retweet_text {
        Some(t) => t,
        None => {
            return Err(CardError::NoText);
        },
    };
    let pt = match post_text {
        Some(t) => t,
        None => {
            return Err(CardError::NoText);
        },
    };
    let retweet_links = patterns.extract_urls(rt);
    let post_links = patterns.extract_urls(pt);
    let mut taken: Vec<bool> = Vec::new();
    let mut j: usize = 0;
    while j < cards.len()
        invariant
            j <= cards@.len(),
            taken@.len() == j,
            forall|k: int| 0 <= k < j ==> !taken@[k],
        decreases cards.len() - j,
    {
        taken.push(false);
        j = j + 1;
    }
    proof {
        assert forall|k: Seq<char>| #![auto]
            untaken(all, taken@).contains_key(k) == card_index(all).contains_key(k) by {
            lemma_last_card_pos(all, k);
        }
        assert forall|k: Seq<char>| #[trigger] untaken(all, taken@).contains_key(k) implies untaken(
            all,
            taken@,
        )[k] == card_index(all)[k] by {
            lemma_last_card_pos(all, k);
        }
        assert(untaken(all, taken@) =~= card_index(all));
    }
    let theirs = take_cards_for_links(cards, &mut taken, &retweet_links);
    let mine = take_cards_for_links(cards, &mut taken, &post_links);
    Ok((mine, theirs))
}

} // verus!
