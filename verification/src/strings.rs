//! Character-level helpers over `str`, specified on `Seq<char>`.

use vstd::prelude::*;
use vstd::string::*;

verus! {

/// No position of `s` holds `c`.
pub open spec fn lacks(s: Seq<char>, c: char) -> bool {
    forall|j: int| 0 <= j < s.len() ==> s[j] != c
}

/// `r` is the part of `s` before the first `c` (all of `s` when there is none).
pub open spec fn is_head_before(s: Seq<char>, c: char, r: Seq<char>) -> bool {
    &&& r.len() <= s.len()
    &&& r == s.take(r.len() as int)
    &&& lacks(r, c)
    &&& (r.len() == s.len() || s[r.len() as int] == c)
}

/// `r` is the part of `s` after the last `c` (all of `s` when there is none).
pub open spec fn is_tail_after(s: Seq<char>, c: char, r: Seq<char>) -> bool {
    &&& r.len() <= s.len()
    &&& r == s.skip(s.len() - r.len())
    &&& lacks(r, c)
    &&& (r.len() == s.len() || s[s.len() - r.len() - 1] == c)
}

/// `i` is the position of the first `c` in `s`.
pub open spec fn is_first_pos(s: Seq<char>, c: char, i: int) -> bool {
    0 <= i < s.len() && s[i] == c && lacks(s.take(i), c)
}

/// `i` is the position of the last `c` in `s`.
pub open spec fn is_last_pos(s: Seq<char>, c: char, i: int) -> bool {
    0 <= i < s.len() && s[i] == c && lacks(s.skip(i + 1), c)
}

/// The part of `s` before its first `c`.
pub open spec fn head_of(s: Seq<char>, c: char) -> Seq<char> {
    choose|r: Seq<char>| is_head_before(s, c, r)
}

/// The part of `s` after its last `c`.
pub open spec fn tail_of(s: Seq<char>, c: char) -> Seq<char> {
    choose|r: Seq<char>| is_tail_after(s, c, r)
}

/// Some head before `c` exists.
pub proof fn lemma_head_exists(s: Seq<char>, c: char)
    ensures
        exists|r: Seq<char>| is_head_before(s, c, r),
    decreases s.len(),
{
    if s.len() == 0 {
        assert(s.take(0) =~= s);
        assert(is_head_before(s, c, s));
    } else if s[0] == c {
        assert(s.take(0) =~= Seq::<char>::empty());
        assert(is_head_before(s, c, Seq::<char>::empty()));
    } else {
        lemma_head_exists(s.drop_first(), c);
        let r = choose|r: Seq<char>| is_head_before(s.drop_first(), c, r);
        let r2 = seq![s[0]] + r;
        assert(r2 =~= s.take(r2.len() as int));
        assert(is_head_before(s, c, r2));
    }
}

/// Some tail after `c` exists.
pub proof fn lemma_tail_exists(s: Seq<char>, c: char)
    ensures
        exists|r: Seq<char>| is_tail_after(s, c, r),
    decreases s.len(),
{
    if s.len() == 0 {
        assert(s.skip(0) =~= s);
        assert(is_tail_after(s, c, s));
    } else if s.last() == c {
        assert(s.skip(s.len() as int) =~= Seq::<char>::empty());
        assert(is_tail_after(s, c, Seq::<char>::empty()));
    } else {
        lemma_tail_exists(s.drop_last(), c);
        let r = choose|r: Seq<char>| is_tail_after(s.drop_last(), c, r);
        let r2 = r.push(s.last());
        assert(r2 =~= s.skip(s.len() - r2.len()));
        assert(is_tail_after(s, c, r2));
    }
}

/// `head_of` satisfies its defining predicate, and only it does.
pub proof fn lemma_head_of(s: Seq<char>, c: char)
    ensures
        is_head_before(s, c, head_of(s, c)),
        forall|r: Seq<char>| is_head_before(s, c, r) ==> r == head_of(s, c),
{
    lemma_head_exists(s, c);
    assert forall|r: Seq<char>| is_head_before(s, c, r) implies r == head_of(s, c) by {
        lemma_head_before_unique(s, c, r, head_of(s, c));
    }
}

/// `tail_of` satisfies its defining predicate, and only it does.
pub proof fn lemma_tail_of(s: Seq<char>, c: char)
    ensures
        is_tail_after(s, c, tail_of(s, c)),
        forall|r: Seq<char>| is_tail_after(s, c, r) ==> r == tail_of(s, c),
{
    lemma_tail_exists(s, c);
    assert forall|r: Seq<char>| is_tail_after(s, c, r) implies r == tail_of(s, c) by {
        lemma_tail_after_unique(s, c, r, tail_of(s, c));
    }
}

/// The head before a given char is unique.
pub proof fn lemma_head_before_unique(s: Seq<char>, c: char, r1: Seq<char>, r2: Seq<char>)
    requires
        is_head_before(s, c, r1),
        is_head_before(s, c, r2),
    ensures
        r1 == r2,
{
    if r1.len() < r2.len() {
        assert(r2[r1.len() as int] == s[r1.len() as int]);
    } else if r2.len() < r1.len() {
        assert(r1[r2.len() as int] == s[r2.len() as int]);
    }
    assert(r1 =~= r2);
}

/// The tail after a given char is unique.
pub proof fn lemma_tail_after_unique(s: Seq<char>, c: char, r1: Seq<char>, r2: Seq<char>)
    requires
        is_tail_after(s, c, r1),
        is_tail_after(s, c, r2),
    ensures
        r1 == r2,
{
    if r1.len() < r2.len() {
        let k = r2.len() - r1.len() - 1;
        assert(r2[k] == s[s.len() - r2.len() + k]);
    } else if r2.len() < r1.len() {
        let k = r1.len() - r2.len() - 1;
        assert(r1[k] == s[s.len() - r1.len() + k]);
    }
    assert(r1 =~= r2);
}

/// The char count of `s`.
pub fn char_len(s: &str) -> (n: usize)
    ensures
        n == s@.len(),
{
    s.unicode_len()
}

/// Position of the first `c` in `s`, if any.
pub fn find_first(s: &str, c: char) -> (res: Option<usize>)
    ensures
        match res {
            Some(i) => is_first_pos(s@, c, i as int),
            None => lacks(s@, c),
        },
{
    let n = s.unicode_len();
    let mut i: usize = 0;
    while i < n
        invariant
            n == s@.len(),
            i <= n,
            lacks(s@.take(i as int), c),
        decreases n - i,
    {
        if s.get_char(i) == c {
            return Some(i);
        }
        assert(s@.take((i + 1) as int) =~= s@.take(i as int).push(s@[i as int]));
        i = i + 1;
    }
    assert(s@.take(n as int) =~= s@);
    None
}

/// Position of the last `c` in `s`, if any.
pub fn find_last(s: &str, c: char) -> (res: Option<usize>)
    ensures
        match res {
            Some(i) => is_last_pos(s@, c, i as int),
            None => lacks(s@, c),
        },
{
    let n = s.unicode_len();
    let mut i: usize = n;
    while i > 0
        invariant
            n == s@.len(),
            i <= n,
            lacks(s@.skip(i as int), c),
        decreases i,
    {
        if s.get_char(i - 1) == c {
            return Some(i - 1);
        }
        assert(s@.skip((i - 1) as int) =~= seq![s@[i - 1]] + s@.skip(i as int));
        i = i - 1;
    }
    assert(s@.skip(0) =~= s@);
    None
}

/// The part of `s` before the first `c`.
pub fn head_before(s: &str, c: char) -> (r: &str)
    ensures
        r@ == head_of(s@, c),
{
    proof {
        lemma_head_of(s@, c);
    }
    match find_first(s, c) {
        Some(i) => {
            let r = s.substring_char(0, i);
            assert(r@ =~= s@.take(i as int));
            assert(is_head_before(s@, c, r@));
            r
        },
        None => {
            let n = s.unicode_len();
            let r = s.substring_char(0, n);
            assert(r@ =~= s@);
            assert(s@.take(s@.len() as int) =~= s@);
            assert(is_head_before(s@, c, r@));
            r
        },
    }
}

/// The part of `s` after the last `c`.
pub fn tail_after(s: &str, c: char) -> (r: &str)
    ensures
        r@ == tail_of(s@, c),
{
    proof {
        lemma_tail_of(s@, c);
    }
    let n = s.unicode_len();
    match find_last(s, c) {
        Some(i) => {
            let r = s.substring_char(i + 1, n);
            assert(r@ =~= s@.skip(i + 1));
            assert(is_tail_after(s@, c, r@));
            r
        },
        None => {
            let r = s.substring_char(0, n);
            assert(r@ =~= s@);
            assert(s@.skip(0) =~= s@);
            assert(is_tail_after(s@, c, r@));
            r
        },
    }
}


/// Appends `c` to `s` with `String::push`.
#[verifier::external_body]
pub(crate) fn push_char(s: &mut String, c: char)
    ensures
        final(s)@ == old(s)@.push(c),
{
    s.push(c);
}

/// The characters of `s`, in order.
pub(crate) fn char_vec(s: &str) -> (v: Vec<char>)
    ensures
        v@ == s@,
{
    broadcast use vstd::string::axiom_spec_iter;
    let mut v: Vec<char> = Vec::new();
    for c in it: s.chars()
        invariant
            v@ == it.seq().take(it.index() as int),
    {
        v.push(c);
    }
    assert(v@ =~= s@);
    v
}

/// The character of the decimal digit `d`.
pub open spec fn digit_char(d: int) -> char {
    if d == 0 {
        '0'
    } else if d == 1 {
        '1'
    } else if d == 2 {
        '2'
    } else if d == 3 {
        '3'
    } else if d == 4 {
        '4'
    } else if d == 5 {
        '5'
    } else if d == 6 {
        '6'
    } else if d == 7 {
        '7'
    } else if d == 8 {
        '8'
    } else {
        '9'
    }
}

/// The decimal digits of `n`, most significant first, without leading zeros.
pub open spec fn decimal(n: nat) -> Seq<char>
    decreases n,
{
    if n < 10 {
        seq![digit_char(n as int)]
    } else {
        decimal(n / 10).push(digit_char((n % 10) as int))
    }
}

/// `i` in decimal, with a leading `-` when it is negative.
pub open spec fn signed_decimal(i: int) -> Seq<char> {
    if i < 0 {
        seq!['-'] + decimal((-i) as nat)
    } else {
        decimal(i as nat)
    }
}

/// `true` or `false`.
pub open spec fn bool_text(b: bool) -> Seq<char> {
    if b {
        "true"@
    } else {
        "false"@
    }
}

/// The character of the decimal digit `d`.
pub fn digit(d: u64) -> (c: char)
    requires
        d < 10,
    ensures
        c == digit_char(d as int),
{
    if d == 0 {
        '0'
    } else if d == 1 {
        '1'
    } else if d == 2 {
        '2'
    } else if d == 3 {
        '3'
    } else if d == 4 {
        '4'
    } else if d == 5 {
        '5'
    } else if d == 6 {
        '6'
    } else if d == 7 {
        '7'
    } else if d == 8 {
        '8'
    } else {
        '9'
    }
}

/// Appends `n` in decimal to `s`.
pub fn push_decimal(s: &mut String, n: u64)
    ensures
        final(s)@ == old(s)@ + decimal(n as nat),
    decreases n,
{
    if n < 10 {
        push_char(s, digit(n));
    } else {
        push_decimal(s, n / 10);
        push_char(s, digit(n % 10));
    }
    assert(final(s)@ =~= old(s)@ + decimal(n as nat));
}

/// Appends `i` in decimal to `s`, as `to_string` writes it.
pub fn push_signed_decimal(s: &mut String, i: i64)
    ensures
        final(s)@ == old(s)@ + signed_decimal(i as int),
{
    if i < 0 {
        push_char(s, '-');
        let m: u64 = if i == i64::MIN {
            9223372036854775808u64
        } else {
            (-i) as u64
        };
        push_decimal(s, m);
        assert(final(s)@ =~= old(s)@ + signed_decimal(i as int));
    } else {
        push_decimal(s, i as u64);
    }
}

/// Appends `true` or `false` to `s`.
pub fn push_bool(s: &mut String, b: bool)
    ensures
        final(s)@ == old(s)@ + bool_text(b),
{
    if b {
        s.append("true");
    } else {
        s.append("false");
    }
}

/// `n` in decimal.
pub fn u64_text(n: u64) -> (res: String)
    ensures
        res@ == decimal(n as nat),
{
    let mut s = String::new();
    push_decimal(&mut s, n);
    assert(s@ =~= decimal(n as nat));
    s
}

/// `i` in decimal.
pub fn i64_text(i: i64) -> (res: String)
    ensures
        res@ == signed_decimal(i as int),
{
    let mut s = String::new();
    push_signed_decimal(&mut s, i);
    assert(s@ =~= signed_decimal(i as int));
    s
}

} // verus!
