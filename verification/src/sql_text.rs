//! SQL text: quoted string literals and `INSERT OR IGNORE` statements.

use vstd::prelude::*;
use vstd::string::*;
use crate::strings::{char_vec, push_char};

verus! {

/// What a character becomes inside a quoted literal: `'` is doubled.
pub open spec fn quote_piece(c: char) -> Seq<char> {
    if c == '\'' {
        seq!['\'', '\'']
    } else {
        seq![c]
    }
}

/// `s` with each `'` doubled.
pub open spec fn sql_escape(s: Seq<char>) -> Seq<char>
    decreases s.len(),
{
    if s.len() == 0 {
        Seq::empty()
    } else {
        quote_piece(s[0]) + sql_escape(s.drop_first())
    }
}

/// `s` as an SQL string literal.
pub open spec fn sql_quote(s: Seq<char>) -> Seq<char> {
    seq!['\''] + sql_escape(s) + seq!['\'']
}

/// The text that the inside of a quoted literal stands for: `''` is one `'`.
pub open spec fn sql_unescape(t: Seq<char>) -> Seq<char>
    decreases t.len(),
{
    if t.len() == 0 {
        Seq::empty()
    } else if t.len() >= 2 && t[0] == '\'' && t[1] == '\'' {
        seq!['\''] + sql_unescape(t.skip(2))
    } else {
        seq![t[0]] + sql_unescape(t.drop_first())
    }
}

/// Escaping distributes over concatenation.
pub proof fn lemma_sql_escape_concat(a: Seq<char>, b: Seq<char>)
    ensures
        sql_escape(a + b) == sql_escape(a) + sql_escape(b),
    decreases a.len(),
{
    if a.len() == 0 {
        assert(a + b =~= b);
        assert(sql_escape(a) =~= Seq::<char>::empty());
        assert(sql_escape(a) + sql_escape(b) =~= sql_escape(b));
    } else {
        assert((a + b).drop_first() =~= a.drop_first() + b);
        assert((a + b)[0] == a[0]);
        lemma_sql_escape_concat(a.drop_first(), b);
        assert(sql_escape(a + b) =~= sql_escape(a) + sql_escape(b));
    }
}

/// A quoted literal reads back as the text it was made from: the inside of
/// `to_sql_str(s)`, with each `''` read as `'`, is `s` again.
pub proof fn law_sql_quote_reads_back(s: Seq<char>)
    ensures
        sql_unescape(sql_escape(s)) == s,
        sql_quote(s) == seq!['\''] + sql_escape(s) + seq!['\''],
    decreases s.len(),
{
    if s.len() > 0 {
        law_sql_quote_reads_back(s.drop_first());
        let e = sql_escape(s.drop_first());
        let t = sql_escape(s);
        if s[0] == '\'' {
            assert(t.skip(2) =~= e);
        } else {
            assert(t.drop_first() =~= e);
        }
        assert(seq![s[0]] + s.drop_first() =~= s);
    }
}

/// `s` as an SQL string literal: in quotes, with each `'` doubled.
pub fn to_sql_str(s: &str) -> (res: String)
    ensures
        res@ == sql_quote(s@),
{
    let cs = char_vec(s);
    let mut res = String::new();
    push_char(&mut res, '\'');
    let mut i: usize = 0;
    while i < cs.len()
        invariant
            i <= cs@.len(),
            cs@ == s@,
            res@ == seq!['\''] + sql_escape(s@.take(i as int)),
        decreases cs.len() - i,
    {
        let c = cs[i];
        let ghost before = res@;
        if c == '\'' {
            push_char(&mut res, '\'');
            push_char(&mut res, '\'');
        } else {
            push_char(&mut res, c);
        }
        proof {
            assert(s@.take(i + 1) =~= s@.take(i as int) + seq![c]);
            lemma_sql_escape_concat(s@.take(i as int), seq![c]);
            assert(seq![c].drop_first() =~= Seq::<char>::empty());
            assert(seq![c][0] == c);
            assert(sql_escape(Seq::<char>::empty()) =~= Seq::<char>::empty());
            assert(sql_escape(seq![c]) =~= quote_piece(c) + sql_escape(Seq::<char>::empty()));
            assert(res@ =~= seq!['\''] + sql_escape(s@.take(i + 1)));
        }
        i = i + 1;
    }
    push_char(&mut res, '\'');
    assert(s@.take(cs@.len() as int) =~= s@);
    assert(res@ =~= sql_quote(s@));
    res
}

/// A column of a row to insert: its name and the SQL text of its value.
pub type Column = (Seq<char>, Seq<char>);

/// The names of `cols`, separated by commas.
pub open spec fn join_names(cols: Seq<Column>) -> Seq<char>
    decreases cols.len(),
{
    if cols.len() == 0 {
        Seq::empty()
    } else if cols.len() == 1 {
        cols[0].0
    } else {
        join_names(cols.drop_last()) + seq![','] + cols.last().0
    }
}

/// The values of `cols`, separated by commas.
pub open spec fn join_values(cols: Seq<Column>) -> Seq<char>
    decreases cols.len(),
{
    if cols.len() == 0 {
        Seq::empty()
    } else if cols.len() == 1 {
        cols[0].1
    } else {
        join_values(cols.drop_last()) + seq![','] + cols.last().1
    }
}

/// The statement that `head` (such as `INSERT OR IGNORE INTO user (`)
/// begins, inserting the columns `cols`.
pub open spec fn insert_sql(head: Seq<char>, cols: Seq<Column>) -> Seq<char> {
    head + join_names(cols) + ") VALUES ("@ + join_values(cols) + ")"@
}

/// `cols` with the column `name` added when `value` is present.
pub open spec fn push_opt(cols: Seq<Column>, name: Seq<char>, value: Option<Seq<char>>) -> Seq<
    Column,
> {
    match value {
        Some(v) => cols.push((name, v)),
        None => cols,
    }
}

/// The column names and the values of an insert statement, built side by
/// side.
pub struct InsertBuilder {
    names: String,
    values: String,
    started: bool,
    cols: Ghost<Seq<Column>>,
}

impl InsertBuilder {
    /// The builder holds the texts of its columns.
    pub closed spec fn wf(&self) -> bool {
        &&& self.names@ == join_names(self.cols@)
        &&& self.values@ == join_values(self.cols@)
        &&& self.started == (self.cols@.len() > 0)
    }

    /// The columns added so far, in order.
    pub closed spec fn columns(&self) -> Seq<Column> {
        self.cols@
    }

    /// A builder with no column.
    pub fn new() -> (b: Self)
        ensures
            b.wf(),
            b.columns() == Seq::<Column>::empty(),
    {
        InsertBuilder {
            names: String::new(),
            values: String::new(),
            started: false,
            cols: Ghost(Seq::empty()),
        }
    }

    /// Adds the column `name` with the value text `value`.
    pub fn push(&mut self, name: &str, value: &str)
        requires
            old(self).wf(),
        ensures
            final(self).wf(),
            final(self).columns() == old(self).columns().push((name@, value@)),
    {
        let ghost old_cols = self.cols@;
        let ghost old_names = self.names@;
        let ghost old_values = self.values@;
        let ghost cols2 = old_cols.push((name@, value@));
        assert(cols2.drop_last() =~= old_cols);
        assert(cols2.last() == (name@, value@));
        if self.started {
            self.names.append(",");
            self.values.append(",");
        }
        self.names.append(name);
        self.values.append(value);
        self.started = true;
        self.cols = Ghost(cols2);
        proof {
            reveal_strlit(",");
            if old_cols.len() == 0 {
                assert(old_names =~= Seq::<char>::empty());
                assert(old_values =~= Seq::<char>::empty());
                assert(cols2.len() == 1 && cols2[0] == (name@, value@));
            } else {
                assert(cols2.len() >= 2);
            }
            assert(self.names@ =~= join_names(cols2));
            assert(self.values@ =~= join_values(cols2));
        }
    }

    /// Adds the column `name` when `value` is present.
    pub fn push_opt(&mut self, name: &str, value: Option<String>)
        requires
            old(self).wf(),
        ensures
            final(self).wf(),
            final(self).columns() == push_opt(
                old(self).columns(),
                name@,
                match value {
                    Some(v) => Some(v@),
                    None => None,
                },
            ),
    {
        match value {
            Some(v) => self.push(name, v.as_str()),
            None => {},
        }
    }

    /// The statement that `head` begins.
    pub fn finish(self, head: &str) -> (res: String)
        requires
            self.wf(),
        ensures
            res@ == insert_sql(head@, self.columns()),
    {
        let mut res = String::from_str(head);
        res.append(self.names.as_str());
        res.append(") VALUES (");
        res.append(self.values.as_str());
        res.append(")");
        res
    }
}


/// The columns of a stored post and their placeholders, after the conflict
/// clause of the statement that stores it.
pub const SAVE_POST_COLUMNS: &'static str = " INTO posts (id,mblogid,text_raw,source,region_name,deleted,uid,pic_ids,pic_num,retweeted_id,url_struct,topic_struct,tag_struct,tags,customIcons,number_display_strategy,mix_media_info,visible,text,attitudes_status,showFeedRepost,showFeedComment,pictureViewerSign,showPictureViewer,favorited,can_edit,is_paid,share_repost_type,rid,pic_infos,cardid,pic_bg_new,mark,mblog_vip_type,reposts_count,comments_count,attitudes_count,mlevel,complaint,content_auth,is_show_bulletin,repost_type,edit_count,mblogtype,textLength,isLongText,rcList,annotations,geo,pic_focus_point,page_info,title,continue_tag,comment_manage_info,client_only,unfavorited,created_at,created_at_timestamp,created_at_tz)VALUES (?, ?, ?, ?, ?, ?, ?, ?, ?, ?, ?, ?, ?, ?, ?, ?, ?, ?, ?, ?, ?, ?, ?, ?, ?, ?, ?, ?, ?, ?, ?, ?, ?, ?, ?, ?, ?, ?, ?, ?, ?, ?, ?, ?, ?, ?, ?, ?, ?, ?, ?, ?, ?, ?, ?, ?, ?, ?, ?)";

/// The statement that stores a post, replacing a stored post with the same
/// id when `overwrite`, else leaving it as it is.
pub fn save_post_sql(overwrite: bool) -> (res: String)
    ensures
        res@ == "INSERT OR "@ + (if overwrite {
            "REPLACE"@
        } else {
            "IGNORE"@
        }) + SAVE_POST_COLUMNS@,
{
    let mut res = String::from_str("INSERT OR ");
    if overwrite {
        res.append("REPLACE");
    } else {
        res.append("IGNORE");
    }
    res.append(SAVE_POST_COLUMNS);
    res
}

} // verus!
