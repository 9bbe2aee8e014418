//! Pieces of an HTML page under construction: the HTML text of some posts and
//! the pictures it shows, each picture known once by its name.

use vstd::prelude::*;

verus! {

/// A picture that a page shows: its file name and its bytes.
#[derive(Debug)]
pub struct Picture {
    pub name: String,
    pub blob: Vec<u8>,
}

/// No two pictures of `s` have the same name.
pub open spec fn names_unique(s: Seq<Picture>) -> bool {
    forall|i: int, j: int| 0 <= i < j < s.len() ==> s[i].name@ != s[j].name@
}

/// Some picture of `s` is named `k`.
pub open spec fn has_name(s: Seq<Picture>, k: Seq<char>) -> bool {
    exists|i: int| 0 <= i < s.len() && s[i].name@ == k
}

/// The bytes of the pictures of `s`, by name.
pub open spec fn pics_map(s: Seq<Picture>) -> Map<Seq<char>, Seq<u8>> {
    Map::new(
        |k: Seq<char>| has_name(s, k),
        |k: Seq<char>| s[choose|i: int| 0 <= i < s.len() && s[i].name@ == k].blob@,
    )
}

/// In a sequence without repeated names, the map gives each picture's bytes.
pub proof fn lemma_pics_map_at(s: Seq<Picture>, i: int)
    requires
        names_unique(s),
        0 <= i < s.len(),
    ensures
        pics_map(s).contains_key(s[i].name@),
        pics_map(s)[s[i].name@] == s[i].blob@,
{
    let k = s[i].name@;
    assert(has_name(s, k));
    let p = choose|p: int| 0 <= p < s.len() && s[p].name@ == k;
    if p != i {
        if p < i {
            assert(s[p].name@ != s[i].name@);
        } else {
            assert(s[i].name@ != s[p].name@);
        }
    }
}

/// The HTML of some posts and the pictures that it shows.
#[derive(Debug)]
pub struct HTMLPosts {
    html: String,
    pics: Vec<Picture>,
}

impl HTMLPosts {
    /// A picture is held at most once for each name.
    #[verifier::type_invariant]
    closed spec fn pics_unique(self) -> bool {
        names_unique(self.pics@)
    }

    /// The HTML text.
    pub closed spec fn html_view(&self) -> Seq<char> {
        self.html@
    }

    /// The pictures' bytes, by name.
    pub closed spec fn pics_view(&self) -> Map<Seq<char>, Seq<u8>> {
        pics_map(self.pics@)
    }

    /// No HTML and no pictures.
    pub fn new() -> (res: Self)
        ensures
            res.html_view() == Seq::<char>::empty(),
            res.pics_view() == Map::<Seq<char>, Seq<u8>>::empty(),
    {
        let res = HTMLPosts { html: String::new(), pics: Vec::new() };
        assert(res.pics_view() =~= Map::<Seq<char>, Seq<u8>>::empty());
        res
    }

    /// The HTML text.
    pub fn html(&self) -> (res: &String)
        ensures
            res@ == self.html_view(),
    {
        &self.html
    }

    /// The pictures, each name once.
    pub fn pictures(&self) -> (res: &Vec<Picture>)
        ensures
            names_unique(res@),
            pics_map(res@) == self.pics_view(),
    {
        proof {
            use_type_invariant(self);
        }
        &self.pics
    }

    /// Appends `text` to the HTML.
    pub fn push_html(&mut self, text: &str)
        ensures
            final(self).html_view() == old(self).html_view() + text@,
            final(self).pics_view() == old(self).pics_view(),
    {
        proof {
            use_type_invariant(&*self);
        }
        let mut html = String::new();
        std::mem::swap(&mut html, &mut self.html);
        html.append(text);
        self.html = html;
    }

    /// Adds `pic` unless a picture of that name is held already; says whether
    /// it was added.
    pub fn insert(&mut self, pic: Picture) -> (added: bool)
        ensures
            added == !old(self).pics_view().contains_key(pic.name@),
            final(self).pics_view() == (if added {
                old(self).pics_view().insert(pic.name@, pic.blob@)
            } else {
                old(self).pics_view()
            }),
            final(self).html_view() == old(self).html_view(),
    {
        proof {
            use_type_invariant(&*self);
        }
        let ghost before = self.pics@;
        let mut i: usize = 0;
        while i < self.pics.len()
            invariant
                self.pics@ == before,
                names_unique(before),
                i <= before.len(),
                forall|j: int| 0 <= j < i ==> before[j].name@ != pic.name@,
            decreases self.pics.len() - i,
        {
            if self.pics[i].name.eq(&pic.name) {
                proof {
                    lemma_pics_map_at(before, i as int);
                }
                return false;
            }
            i = i + 1;
        }
        assert(!has_name(before, pic.name@));
        let ghost k = pic.name@;
        let ghost b = pic.blob@;
        let mut pics: Vec<Picture> = Vec::new();
        std::mem::swap(&mut pics, &mut self.pics);
        pics.push(pic);
        let ghost after = pics@;
        assert(after == before.push(after.last()));
        assert(names_unique(after)) by {
            assert forall|x: int, y: int| 0 <= x < y < after.len() implies after[x].name@
                != after[y].name@ by {
                if y == after.len() - 1 {
                    assert(after[x] == before[x]);
                } else {
                    assert(after[x] == before[x] && after[y] == before[y]);
                }
            }
        }
        self.pics = pics;
        proof {
            let m = pics_map(before).insert(k, b);
            assert forall|kk: Seq<char>| #[trigger] m.contains_key(kk) implies pics_map(
                after,
            ).contains_key(kk) && pics_map(after)[kk] == m[kk] by {
                if kk == k {
                    lemma_pics_map_at(after, (after.len() - 1) as int);
                } else {
                    let j = choose|j: int| 0 <= j < before.len() && before[j].name@ == kk;
                    lemma_pics_map_at(before, j);
                    assert(after[j] == before[j]);
                    lemma_pics_map_at(after, j);
                }
            }
            assert forall|kk: Seq<char>| pics_map(after).contains_key(kk) implies m.contains_key(
                kk,
            ) by {
                let j = choose|j: int| 0 <= j < after.len() && after[j].name@ == kk;
                if j < before.len() {
                    assert(after[j] == before[j]);
                }
            }
            assert(pics_map(after) =~= m);
        }
        true
    }

    /// Appends the HTML of `rhs` and adds its pictures; where both hold a
    /// picture of one name, the one held here stays.
    pub fn merge(&mut self, rhs: HTMLPosts)
        ensures
            final(self).html_view() == old(self).html_view() + rhs.html_view(),
            final(self).pics_view() == rhs.pics_view().union_prefer_right(old(self).pics_view()),
    {
        proof {
            use_type_invariant(&rhs);
        }
        let ghost rhs_html = rhs.html_view();
        let ghost all = rhs.pics@;
        let ghost mine = old(self).pics_view();
        let HTMLPosts { html, mut pics } = rhs;
        self.push_html(html.as_str());
        assert(pics_map(all).union_prefer_right(mine) == rhs.pics_view().union_prefer_right(mine));
        while pics.len() > 0
            invariant
                names_unique(all),
                pics@ == all.subrange(0, pics@.len() as int),
                pics@.len() <= all.len(),
                self.html_view() == old(self).html_view() + rhs_html,
                forall|k: Seq<char>| #[trigger]
                    self.pics_view().contains_key(k) <==> (mine.contains_key(k) || exists|j: int|
                        pics@.len() <= j < all.len() && all[j].name@ == k),
                forall|k: Seq<char>| #[trigger]
                    self.pics_view().contains_key(k) && mine.contains_key(k) ==> self.pics_view()[k]
                        == mine[k],
                forall|j: int|
                    pics@.len() <= j < all.len() && !mine.contains_key(#[trigger] all[j].name@)
                        ==> self.pics_view()[all[j].name@] == all[j].blob@,
            decreases pics.len(),
        {
            let ghost n = pics@.len() - 1;
            let ghost before = self.pics_view();
            let p = pics.pop().unwrap();
            assert(p == all[n]);
            let ghost k = p.name@;
            let ghost b = p.blob@;
            assert forall|j: int| n < j < all.len() implies all[j].name@ != k by {
                assert(all[n].name@ != all[j].name@);
            }
            let added = self.insert(p);
            proof {
                assert(added ==> !mine.contains_key(k));
                assert forall|j: int|
                    pics@.len() <= j < all.len() && !mine.contains_key(#[trigger] all[j].name@)
                        implies self.pics_view()[all[j].name@] == all[j].blob@ by {
                    if j == n {
                        if !added {
                            assert(before.contains_key(k));
                            assert(!mine.contains_key(k));
                            let jj = choose|jj: int|
                                n + 1 <= jj < all.len() && all[jj].name@ == k;
                            assert(all[jj].name@ != k);
                        }
                    }
                }
                assert forall|kk: Seq<char>| #[trigger]
                    self.pics_view().contains_key(kk) implies (mine.contains_key(kk) || exists|j: int|
                        pics@.len() <= j < all.len() && all[j].name@ == kk) by {
                    if kk == k {
                        assert(all[n].name@ == kk);
                    }
                }
                assert forall|kk: Seq<char>|
                    (mine.contains_key(kk) || exists|j: int|
                        pics@.len() <= j < all.len() && all[j].name@ == kk) implies #[trigger]
                    self.pics_view().contains_key(kk) by {
                    if !mine.contains_key(kk) {
                        let j = choose|j: int| pics@.len() <= j < all.len() && all[j].name@ == kk;
                        if j > n {
                            assert(before.contains_key(kk));
                        }
                    }
                }
            }
        }
        proof {
            let target = pics_map(all).union_prefer_right(mine);
            assert forall|k: Seq<char>| #[trigger]
                target.contains_key(k) implies self.pics_view().contains_key(k)
                && self.pics_view()[k] == target[k] by {
                if !mine.contains_key(k) {
                    let j = choose|j: int| 0 <= j < all.len() && all[j].name@ == k;
                    lemma_pics_map_at(all, j);
                }
            }
            assert forall|k: Seq<char>| self.pics_view().contains_key(k) implies #[trigger]
                target.contains_key(k) by {
                if !mine.contains_key(k) {
                    let j = choose|j: int| 0 <= j < all.len() && all[j].name@ == k;
                    assert(has_name(all, k));
                }
            }
            assert(self.pics_view() =~= target);
        }
    }
}

impl Default for HTMLPosts {
    fn default() -> (res: Self)
        ensures
            res.html_view() == Seq::<char>::empty(),
            res.pics_view() == Map::<Seq<char>, Seq<u8>>::empty(),
    {
        HTMLPosts::new()
    }
}

} // verus!
