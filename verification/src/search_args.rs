//! Filters that narrow a user's post search, encoded as URL query flags.

use vstd::prelude::*;
use vstd::string::*;

verus! {

/// Which kinds of posts a profile search asks for.
#[derive(Debug, Clone, Copy, PartialEq, Eq)]
pub struct SearchArgs {
    pub hasori: bool,
    pub hasret: bool,
    pub hastext: bool,
    pub haspic: bool,
    pub hasvideo: bool,
    pub hasmusic: bool,
}

/// `flag` when `on`, else nothing.
pub open spec fn flag_if(on: bool, flag: Seq<char>) -> Seq<char> {
    if on {
        flag
    } else {
        Seq::empty()
    }
}

/// `base` with the query flags of a set of search arguments appended.
pub open spec fn spec_attach_args(a: SearchArgs, base: Seq<char>) -> Seq<char> {
    base + flag_if(a.hasori, "&hasori=1"@) + flag_if(a.hasret, "&hasret=1"@) + flag_if(
        a.hastext,
        "&hastext=1"@,
    ) + flag_if(a.haspic, "&haspic=1"@) + flag_if(a.hasvideo, "&hasvideo=1"@) + flag_if(
        a.hasmusic,
        "&hasmusic=1"@,
    )
}

impl SearchArgs {
    /// No filter set.
    pub fn new() -> (res: Self)
        ensures
            !res.hasori && !res.hasret && !res.hastext && !res.haspic && !res.hasvideo
                && !res.hasmusic,
    {
        SearchArgs {
            hasori: false,
            hasret: false,
            hastext: false,
            haspic: false,
            hasvideo: false,
            hasmusic: false,
        }
    }

    /// Also ask for original posts.
    pub fn with_ori(self) -> (res: Self)
        ensures
            res == (SearchArgs { hasori: true, ..self }),
    {
        SearchArgs { hasori: true, ..self }
    }

    /// Also ask for reposts.
    pub fn with_ret(self) -> (res: Self)
        ensures
            res == (SearchArgs { hasret: true, ..self }),
    {
        SearchArgs { hasret: true, ..self }
    }

    /// Also ask for posts with text.
    pub fn with_text(self) -> (res: Self)
        ensures
            res == (SearchArgs { hastext: true, ..self }),
    {
        SearchArgs { hastext: true, ..self }
    }

    /// Also ask for posts with pictures.
    pub fn with_pic(self) -> (res: Self)
        ensures
            res == (SearchArgs { haspic: true, ..self }),
    {
        SearchArgs { haspic: true, ..self }
    }

    /// Also ask for posts with video.
    pub fn with_video(self) -> (res: Self)
        ensures
            res == (SearchArgs { hasvideo: true, ..self }),
    {
        SearchArgs { hasvideo: true, ..self }
    }

    /// Also ask for posts with music.
    pub fn with_music(self) -> (res: Self)
        ensures
            res == (SearchArgs { hasmusic: true, ..self }),
    {
        SearchArgs { hasmusic: true, ..self }
    }

    /// Appends one `&<flag>=1` to `base` for each filter that is set, in a
    /// fixed order.
    pub fn attach_args(&self, base: String) -> (res: String)
        ensures
            res@ == spec_attach_args(*self, base@),
    {
        let mut base = base;
        let ghost b0 = base@;
        if self.hasori {
            base.append("&hasori=1");
        }
        let ghost b1 = b0 + flag_if(self.hasori, "&hasori=1"@);
        assert(base@ =~= b1);
        if self.hasret {
            base.append("&hasret=1");
        }
        let ghost b2 = b1 + flag_if(self.hasret, "&hasret=1"@);
        assert(base@ =~= b2);
        if self.hastext {
            base.append("&hastext=1");
        }
        let ghost b3 = b2 + flag_if(self.hastext, "&hastext=1"@);
        assert(base@ =~= b3);
        if self.haspic {
            base.append("&haspic=1");
        }
        let ghost b4 = b3 + flag_if(self.haspic, "&haspic=1"@);
        assert(base@ =~= b4);
        if self.hasvideo {
            base.append("&hasvideo=1");
        }
        let ghost b5 = b4 + flag_if(self.hasvideo, "&hasvideo=1"@);
        assert(base@ =~= b5);
        if self.hasmusic {
            base.append("&hasmusic=1");
        }
        let ghost b6 = b5 + flag_if(self.hasmusic, "&hasmusic=1"@);
        assert(base@ =~= b6);
        base
    }
}

} // verus!
