//! Logging in with a QR code: the requests of the login protocol and what
//! its answers mean.

use vstd::prelude::*;
use vstd::string::*;
use crate::json_record::{as_i64, find_member, member, JsonField};
use crate::strings::{
    char_vec, decimal, digit_char, find_first, is_first_pos, lacks, push_signed_decimal,
    signed_decimal,
};
use crate::upgrade::{digits_value, is_digit};

verus! {

/// The API that gives a login QR code.
pub const LOGIN_API: &'static str =
    "https://login.sina.com.cn/sso/qrcode/image?entry=weibo&size=180&callback=STK_";

/// How many bytes `c` takes in UTF-8.
pub open spec fn utf8_len(c: char) -> int {
    if (c as u32) < 0x80 {
        1
    } else if (c as u32) < 0x800 {
        2
    } else if (c as u32) < 0x10000 {
        3
    } else {
        4
    }
}

/// How many characters at the end of `s` make up its last two bytes, when
/// cutting those two bytes off leaves whole characters.
pub open spec fn two_byte_tail(s: Seq<char>) -> Option<int> {
    if s.len() >= 1 && utf8_len(s.last()) == 2 {
        Some(1)
    } else if s.len() >= 2 && utf8_len(s.last()) == 1 && utf8_len(s[s.len() - 2]) == 1 {
        Some(2)
    } else {
        None
    }
}

/// The answers of the login API are JSONP, `callback(...);`: the body can
/// be cut out of `s`, that is, when `s` has a `(`, cutting the last two
/// bytes off falls between characters and leaves the first `(` in place.
pub open spec fn jsonp_cuttable(s: Seq<char>) -> bool {
    forall|p: int|
        is_first_pos(s, '(', p) ==> match two_byte_tail(s) {
            Some(k) => p + 1 <= s.len() - k,
            None => false,
        }
}

/// The body of the JSONP answer `s`: what lies between its first `(` and
/// its last two bytes.
pub fn get_text(text: &str) -> (res: Option<&str>)
    requires
        jsonp_cuttable(text@),
    ensures
        match res {
            Some(r) => exists|p: int|
                is_first_pos(text@, '(', p) && r@ == text@.subrange(
                    p + 1,
                    text@.len() - two_byte_tail(text@)->0,
                ),
            None => lacks(text@, '('),
        },
{
    match find_first(text, '(') {
        Some(p) => {
            let n = text.unicode_len();
            let last = text.get_char(n - 1);
            let k: usize = if (last as u32) < 0x80 {
                2
            } else {
                1
            };
            Some(text.substring_char(p + 1, n - k))
        },
        None => None,
    }
}

/// The URL of a login QR code requested at `time_stamp` (milliseconds).
pub fn qrcode_url(time_stamp: i64) -> (res: String)
    ensures
        res@ == LOGIN_API@ + signed_decimal(time_stamp as int) + seq!['1'],
{
    let mut res = String::from_str(LOGIN_API);
    push_signed_decimal(&mut res, time_stamp);
    res.append("1");
    proof {
        reveal_strlit("1");
    }
    assert(res@ =~= LOGIN_API@ + signed_decimal(time_stamp as int) + seq!['1']);
    res
}

/// The URL that asks whether the QR code `qrid` was confirmed.
pub fn confirm_check_url(qrid: &str, time_stamp: i64, index: i64) -> (res: String)
    ensures
        res@ == "https://login.sina.com.cn/sso/qrcode/check?entry=weibo&qrid="@ + qrid@
            + "&callback=STK_"@ + signed_decimal(time_stamp as int) + signed_decimal(index as int),
{
    let mut res = String::from_str("https://login.sina.com.cn/sso/qrcode/check?entry=weibo&qrid=");
    res.append(qrid);
    res.append("&callback=STK_");
    push_signed_decimal(&mut res, time_stamp);
    push_signed_decimal(&mut res, index);
    res
}

/// The URL that logs in to weibo.com with the ticket `alt`.
pub fn login_url(alt: &str, time_stamp: i64, index: i64) -> (res: String)
    ensures
        res@ == "https://login.sina.com.cn/sso/login.php?entry=weibo&returntype=TEXT&crossdomain=1&cdult=3&domain=weibo&alt="@
            + alt@ + "&savestate=30&callback=STK_"@ + signed_decimal(time_stamp as int)
            + signed_decimal(index as int),
{
    let mut res = String::from_str(
        "https://login.sina.com.cn/sso/login.php?entry=weibo&returntype=TEXT&crossdomain=1&cdult=3&domain=weibo&alt=",
    );
    res.append(alt);
    res.append("&savestate=30&callback=STK_");
    push_signed_decimal(&mut res, time_stamp);
    push_signed_decimal(&mut res, index);
    res
}

/// The member `key` of `v` when `v` is an object.
pub open spec fn field(v: JsonField, key: Seq<char>) -> Option<JsonField> {
    match v {
        JsonField::Object(ms) => member(ms@, key),
        _ => None,
    }
}

/// The string member `key` of `v`.
pub open spec fn str_field(v: JsonField, key: Seq<char>) -> Option<Seq<char>> {
    match field(v, key) {
        Some(JsonField::Str(s)) => Some(s@),
        _ => None,
    }
}

/// The member `key` of `v` when `v` is an object.
pub(crate) fn get_field<'a>(v: &'a JsonField, key: &str) -> (res: Option<&'a JsonField>)
    ensures
        match res {
            Some(f) => field(*v, key@) == Some(*f),
            None => field(*v, key@) is None,
        },
{
    match v {
        JsonField::Object(ms) => match find_member(ms, key) {
            Some(i) => Some(&ms[i].1),
            None => None,
        },
        _ => None,
    }
}

/// The string member `key` of `v`.
pub(crate) fn get_str_field(v: &JsonField, key: &str) -> (res: Option<String>)
    ensures
        match res {
            Some(s) => str_field(*v, key@) == Some(s@),
            None => str_field(*v, key@) is None,
        },
{
    match get_field(v, key) {
        Some(JsonField::Str(s)) => Some(s.clone()),
        _ => None,
    }
}

/// The answer that gives a QR code carries its image and its id.
pub open spec fn qrcode_reply_ok(reply: JsonField) -> bool {
    match field(reply, "data"@) {
        Some(d) => str_field(d, "image"@) is Some && str_field(d, "qrid"@) is Some,
        None => false,
    }
}

/// The URL of the QR code image and the QR code id that the answer gives.
pub fn qrcode_reply(reply: &JsonField) -> (res: (String, String))
    requires
        qrcode_reply_ok(*reply),
    ensures
        res.0@ == "http:"@ + str_field(field(*reply, "data"@)->0, "image"@)->0,
        res.1@ == str_field(field(*reply, "data"@)->0, "qrid"@)->0,
{
    let data = get_field(reply, "data").unwrap();
    let image = get_str_field(data, "image").unwrap();
    let qrid = get_str_field(data, "qrid").unwrap();
    let mut url = String::from_str("http:");
    url.append(image.as_str());
    (url, qrid)
}

/// What the answer to a confirmation check means.
#[derive(Debug, Clone, PartialEq, Eq)]
pub enum ConfirmOutcome {
    /// The QR code was confirmed; the ticket to log in with.
    Confirmed(String),
    /// Not confirmed yet: ask again.
    Waiting,
    /// The answer has no numeric `retcode`.
    NoRetcode,
    /// The code was confirmed but the answer has no ticket.
    NoTicket,
    /// An unexpected `retcode`.
    Unexpected,
}

/// The code a confirmation answer returns.
pub open spec fn retcode(reply: JsonField) -> Option<i64> {
    match field(reply, "retcode"@) {
        Some(f) => as_i64(f),
        None => None,
    }
}

/// An answer whose `data`, when it is confirmed, can be read by name: it is
/// missing, `null` or an object.
pub open spec fn confirm_reply_indexable(reply: JsonField) -> bool {
    retcode(reply) == Some(20000000i64) ==> match field(reply, "data"@) {
        Some(JsonField::Object(_)) => true,
        Some(JsonField::Null) => true,
        None => true,
        _ => false,
    }
}

/// What the answer to a confirmation check means: 20000000 confirmed with
/// the ticket `data.alt`, 50114001 and 50114002 not yet, anything else an
/// error.
pub fn confirm_outcome(reply: &JsonField) -> (res: ConfirmOutcome)
    requires
        confirm_reply_indexable(*reply),
    ensures
        retcode(*reply) is None ==> res == ConfirmOutcome::NoRetcode,
        retcode(*reply) == Some(20000000i64) ==> match field(*reply, "data"@) {
            Some(d) => match str_field(d, "alt"@) {
                Some(alt) => res matches ConfirmOutcome::Confirmed(t) && t@ == alt,
                None => res == ConfirmOutcome::NoTicket,
            },
            None => res == ConfirmOutcome::NoTicket,
        },
        retcode(*reply) matches Some(c) && (c == 50114001 || c == 50114002) ==> res
            == ConfirmOutcome::Waiting,
        retcode(*reply) matches Some(c) && c != 20000000 && c != 50114001 && c != 50114002 ==> res
            == ConfirmOutcome::Unexpected,
{
    let code = match get_field(reply, "retcode") {
        Some(JsonField::PosInt(u)) => if *u <= 9223372036854775807u64 {
            Some(*u as i64)
        } else {
            None
        },
        Some(JsonField::NegInt(n)) => Some(*n),
        _ => None,
    };
    match code {
        None => ConfirmOutcome::NoRetcode,
        Some(c) => if c == 20000000 {
            match get_field(reply, "data") {
                Some(d) => match get_str_field(d, "alt") {
                    Some(alt) => ConfirmOutcome::Confirmed(alt),
                    None => ConfirmOutcome::NoTicket,
                },
                None => ConfirmOutcome::NoTicket,
            }
        } else if c == 50114001 || c == 50114002 {
            ConfirmOutcome::Waiting
        } else {
            ConfirmOutcome::Unexpected
        },
    }
}

/// The answer to the check of the login cookies says they are valid: its
/// `ok` is the integer 1.
pub open spec fn spec_cookie_valid(reply: JsonField) -> bool {
    match field(reply, "ok"@) {
        Some(f) => as_i64(f) == Some(1i64),
        None => false,
    }
}

/// Whether the answer to the check of the login cookies says they are
/// valid.
pub fn cookie_valid(reply: &JsonField) -> (b: bool)
    ensures
        b == spec_cookie_valid(*reply),
{
    match get_field(reply, "ok") {
        Some(JsonField::PosInt(u)) => *u == 1,
        Some(JsonField::NegInt(n)) => *n == 1,
        _ => false,
    }
}


/// Every character of `ds` is an ASCII digit.
pub open spec fn all_digits(ds: Seq<char>) -> bool {
    forall|i: int| 0 <= i < ds.len() ==> is_digit(ds[i])
}

/// What `str::parse::<i64>` reads from `s`: an optional sign, then one or
/// more ASCII digits, whose value fits an `i64`.
pub open spec fn spec_parse_i64(s: Seq<char>) -> Option<i64> {
    let neg = s.len() > 0 && s[0] == '-';
    let ds = if s.len() > 0 && (s[0] == '-' || s[0] == '+') {
        s.drop_first()
    } else {
        s
    };
    let v: int = if neg {
        -(digits_value(ds) as int)
    } else {
        digits_value(ds) as int
    };
    if ds.len() == 0 || !all_digits(ds) || v < i64::MIN || v > i64::MAX {
        None
    } else {
        Some(v as i64)
    }
}

/// Reads a decimal `i64`, as `str::parse::<i64>` does.
pub fn parse_i64(s: &str) -> (res: Option<i64>)
    ensures
        res == spec_parse_i64(s@),
{
    let cs = char_vec(s);
    let n = cs.len();
    let neg = n > 0 && cs[0] == '-';
    let start: usize = if n > 0 && (cs[0] == '-' || cs[0] == '+') {
        1
    } else {
        0
    };
    let ghost ds = if s@.len() > 0 && (s@[0] == '-' || s@[0] == '+') {
        s@.drop_first()
    } else {
        s@
    };
    assert(ds =~= cs@.subrange(start as int, n as int));
    if start == n {
        return None;
    }
    let mut j: usize = start;
    let mut acc: u64 = 0;
    let mut too_big = false;
    while j < n
        invariant
            n == cs@.len(),
            cs@ == s@,
            start <= j <= n,
            ds == cs@.subrange(start as int, n as int),
            ds == (if s@.len() > 0 && (s@[0] == '-' || s@[0] == '+') {
                s@.drop_first()
            } else {
                s@
            }),
            forall|k: int| start <= k < j ==> is_digit(cs@[k]),
            !too_big ==> acc == digits_value(cs@.subrange(start as int, j as int)) && acc
                <= 9223372036854775808u64,
            too_big ==> digits_value(cs@.subrange(start as int, j as int)) > 9223372036854775808u64,
        decreases n - j,
    {
        let c = cs[j];
        if !('0' <= c && c <= '9') {
            proof {
                let k = j - start;
                assert(ds[k as int] == c);
                assert(!all_digits(ds));
            }
            return None;
        }
        let ghost before = cs@.subrange(start as int, j as int);
        let d = (c as u32 - '0' as u32) as u64;
        proof {
            let after = cs@.subrange(start as int, j + 1);
            assert(after.drop_last() =~= before);
            assert(after.last() == c);
        }
        if !too_big {
            if acc > 922337203685477580u64 {
                too_big = true;
            } else {
                let next = acc * 10 + d;
                if next > 9223372036854775808u64 {
                    too_big = true;
                } else {
                    acc = next;
                }
            }
        }
        j = j + 1;
    }
    assert(cs@.subrange(start as int, j as int) =~= ds);
    assert(all_digits(ds)) by {
        assert forall|i: int| 0 <= i < ds.len() implies is_digit(ds[i]) by {
            assert(ds[i] == cs@[start + i]);
        }
    }
    if too_big {
        None
    } else if neg {
        if acc == 9223372036854775808u64 {
            Some(i64::MIN)
        } else {
            Some(-(acc as i64))
        }
    } else if acc == 9223372036854775808u64 {
        None
    } else {
        Some(acc as i64)
    }
}

/// Why the answer to the login could not be used.
#[derive(Debug, Clone, Copy, PartialEq, Eq)]
pub enum LoginReplyError {
    /// It has no string `uid`.
    NoUid,
    /// Its `uid` is not a number.
    BadUid,
    /// It has no list `crossDomainUrlList`.
    NoUrlList,
}

/// What the answer to the login gives: the user id, the cross-domain URLs
/// to visit in order, and whether the list goes on with an entry that is
/// not a string (an error once those before it are visited).
#[derive(Debug, Clone)]
pub struct LoginReply {
    pub uid: i64,
    pub urls: Vec<String>,
    pub bad_url: bool,
}

/// The strings that `items` begins with.
pub open spec fn leading_strings(items: Seq<JsonField>) -> Seq<Seq<char>>
    decreases items.len(),
{
    if items.len() > 0 && items[0] is Str {
        seq![items[0]->Str_0@] + leading_strings(items.drop_first())
    } else {
        Seq::empty()
    }
}

/// Some entry of `items` is not a string.
pub open spec fn has_non_string(items: Seq<JsonField>) -> bool {
    exists|i: int| 0 <= i < items.len() && !(items[i] is Str)
}

/// The answer of the login is an object, so that it can be read by name.
pub open spec fn login_reply_indexable(reply: JsonField) -> bool {
    reply is Object || reply is Null
}

/// The views of a vector of strings.
pub open spec fn strings_view(v: Seq<String>) -> Seq<Seq<char>> {
    v.map_values(|s: String| s@)
}

/// Reads the answer of the login: the `uid` string as a number, then the
/// list `crossDomainUrlList`.
pub fn login_reply(reply: &JsonField) -> (res: Result<LoginReply, LoginReplyError>)
    requires
        login_reply_indexable(*reply),
    ensures
        match str_field(*reply, "uid"@) {
            None => res == Err::<LoginReply, LoginReplyError>(LoginReplyError::NoUid),
            Some(u) => match spec_parse_i64(u) {
                None => res == Err::<LoginReply, LoginReplyError>(LoginReplyError::BadUid),
                Some(uid) => match field(*reply, "crossDomainUrlList"@) {
                    Some(JsonField::Array(items)) => res matches Ok(r) && r.uid == uid
                        && strings_view(r.urls@) == leading_strings(items@) && r.bad_url
                        == has_non_string(items@),
                    _ => res == Err::<LoginReply, LoginReplyError>(LoginReplyError::NoUrlList),
                },
            },
        },
{
    let uid_text = match get_str_field(reply, "uid") {
        Some(u) => u,
        None => {
            return Err(LoginReplyError::NoUid);
        },
    };
    let uid = match parse_i64(uid_text.as_str()) {
        Some(u) => u,
        None => {
            return Err(LoginReplyError::BadUid);
        },
    };
    match get_field(reply, "crossDomainUrlList") {
        Some(JsonField::Array(items)) => {
            let mut urls: Vec<String> = Vec::new();
            let mut i: usize = 0;
            let mut bad = false;
            assert(items@.skip(0) =~= items@);
            while i < items.len()
                invariant
                    i <= items@.len(),
                    !bad,
                    str_field(*reply, "uid"@) == Some(uid_text@),
                    spec_parse_i64(uid_text@) == Some(uid),
                    field(*reply, "crossDomainUrlList"@) == Some(JsonField::Array(*items)),
                    forall|k: int| 0 <= k < i ==> items@[k] is Str,
                    strings_view(urls@) + leading_strings(items@.skip(i as int)) == leading_strings(
                        items@,
                    ),
                decreases items.len() - i,
            {
                let ghost rest = items@.skip(i as int);
                assert(rest[0] == items@[i as int]);
                assert(rest.drop_first() =~= items@.skip(i + 1));
                match &items[i] {
                    JsonField::Str(u) => {
                        let ghost before = strings_view(urls@);
                        urls.push(u.clone());
                        assert(strings_view(urls@) =~= before + seq![u@]);
                        assert(strings_view(urls@) + leading_strings(items@.skip(i + 1)) =~= before
                            + leading_strings(rest));
                    },
                    _ => {
                        assert(!(items@[i as int] is Str));
                        assert(has_non_string(items@));
                        assert(leading_strings(rest) =~= Seq::<Seq<char>>::empty());
                        assert(strings_view(urls@) =~= strings_view(urls@) + leading_strings(rest));
                        return Ok(LoginReply { uid, urls, bad_url: true });
                    },
                }
                i = i + 1;
            }
            assert(leading_strings(items@.skip(i as int)) =~= Seq::<Seq<char>>::empty());
            assert(strings_view(urls@) =~= strings_view(urls@) + Seq::<Seq<char>>::empty());
            Ok(LoginReply { uid, urls, bad_url: bad })
        },
        _ => Err(LoginReplyError::NoUrlList),
    }
}


/// The decimal digits of `n` are digits and write `n`.
pub proof fn lemma_decimal_digits(n: nat)
    ensures
        decimal(n).len() > 0,
        all_digits(decimal(n)),
        digits_value(decimal(n)) == n,
    decreases n,
{
    let d = (n % 10) as int;
    assert(digit_char(d) as u32 - '0' as u32 == d && is_digit(digit_char(d))) by {
        assert(0 <= d < 10);
    }
    if n < 10 {
        let s = decimal(n);
        assert(n % 10 == n);
        assert(s.drop_last() =~= Seq::<char>::empty());
        assert(s.last() == digit_char(d));
        assert(digits_value(s) == digits_value(s.drop_last()) * 10 + d);
    } else {
        lemma_decimal_digits(n / 10);
        let s = decimal(n);
        assert(s.drop_last() =~= decimal(n / 10));
        assert(s.last() == digit_char(d));
        assert(digits_value(s) == digits_value(s.drop_last()) * 10 + d);
        assert((n / 10) * 10 + n % 10 == n) by (nonlinear_arith);
    }
}

/// Reading an integer back from the text `i64_text` writes for it gives
/// the integer again.
pub proof fn law_parse_reads_back_decimal(i: i64)
    ensures
        spec_parse_i64(signed_decimal(i as int)) == Some(i),
{
    if i < 0 {
        let m = (-i) as nat;
        lemma_decimal_digits(m);
        let s = signed_decimal(i as int);
        assert(s.drop_first() =~= decimal(m));
    } else {
        lemma_decimal_digits(i as nat);
        let s = decimal(i as nat);
        assert(is_digit(s[0]));
    }
}

} // verus!
