//! Regular expressions of the `regex` crate, seen through the texts they
//! match and the texts between those matches.

use vstd::prelude::*;

verus! {

/// The views of a sequence of strings.
pub open spec fn views(v: Seq<String>) -> Seq<Seq<char>> {
    v.map_values(|s: String| s@)
}

/// `pieces[0] + seps[0] + pieces[1] + ... + seps[n-1] + pieces[n]`, where
/// `n` is the number of separators.
pub open spec fn interleave(pieces: Seq<Seq<char>>, seps: Seq<Seq<char>>) -> Seq<char>
    decreases seps.len(),
{
    if seps.len() == 0 {
        if pieces.len() > 0 {
            pieces[0]
        } else {
            Seq::empty()
        }
    } else {
        interleave(pieces.drop_last(), seps.drop_last()) + seps.last() + pieces.last()
    }
}

/// The texts that successive non-overlapping leftmost-first matches of the
/// regular expression `pattern` cover in `hay`, in order.
pub uninterp spec fn regex_matches(pattern: Seq<char>, hay: Seq<char>) -> Seq<Seq<char>>;

/// The texts of `hay` between the matches of `pattern`: before the first,
/// between each two, and after the last.
pub uninterp spec fn regex_pieces(pattern: Seq<char>, hay: Seq<char>) -> Seq<Seq<char>>;

/// Whether the regular expression crate accepts `pattern`: `Regex::new`
/// returns `Ok` for it, with the crate's default limits.
pub uninterp spec fn regex_accepts(pattern: Seq<char>) -> bool;

#[verifier::external_type_specification]
#[verifier::external_body]
pub struct ExRegex(regex::Regex);

/// A compiled regular expression together with the text it was compiled from.
pub struct Pattern {
    re: regex::Regex,
    source: Ghost<Seq<char>>,
}

impl Pattern {
    /// The text the expression was compiled from.
    pub closed spec fn source(&self) -> Seq<char> {
        self.source@
    }
}

/// Compiles `pattern` with `regex::Regex::new`; `None` when the crate
/// rejects the pattern. Which patterns it accepts is named, not written out:
/// `regex_accepts`.
#[verifier::external_body]
pub(crate) fn compile(pattern: &str) -> (res: Option<Pattern>)
    ensures
        res is Some <==> regex_accepts(pattern@),
        res matches Some(p) ==> p.source() == pattern@,
{
    match regex::Regex::new(pattern) {
        Ok(re) => Some(Pattern { re, source: Ghost(pattern@) }),
        Err(_) => None,
    }
}

/// The texts of the matches of `Regex::find_iter` in `hay`, in order.
#[verifier::external_body]
pub(crate) fn find_all(p: &Pattern, hay: &str) -> (res: Vec<String>)
    ensures
        views(res@) == regex_matches(p.source(), hay@),
{
    p.re.find_iter(hay).map(|m| m.as_str().to_string()).collect()
}

/// The texts that `Regex::split` yields for `hay`. As the crate's source
/// shows, they are the gaps around the matches of `find_iter`: one more
/// than the matches, and interleaved with them they give back `hay`.
#[verifier::external_body]
pub(crate) fn split_all(p: &Pattern, hay: &str) -> (res: Vec<String>)
    ensures
        views(res@) == regex_pieces(p.source(), hay@),
        res@.len() == regex_matches(p.source(), hay@).len() + 1,
        interleave(views(res@), regex_matches(p.source(), hay@)) == hay@,
{
    p.re.split(hay).map(|s| s.to_string()).collect()
}

} // verus!
