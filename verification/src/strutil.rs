//! Verified string helpers: whitespace trimming, case-insensitive matching,
//! whitespace tokenizing and decimal formatting.
//!
//! They operate on `&str` / `String` through the character-sequence view
//! `Seq<char>` and are the foundation for username validation and the host
//! command interpreter.

use vstd::prelude::*;

verus! {

/// The Unicode `White_Space` code points, the set `str::trim` and
/// `str::split_whitespace` go by.
pub open spec fn is_ws(c: char) -> bool {
    let u = c as u32;
    (0x09 <= u && u <= 0x0D) || u == 0x20 || u == 0x85 || u == 0xA0 || u == 0x1680 || (0x2000 <= u
        && u <= 0x200A) || u == 0x2028 || u == 0x2029 || u == 0x202F || u == 0x205F || u == 0x3000
}

/// Executable check for [`is_ws`].
pub fn is_ws_char(c: char) -> (r: bool)
    ensures
        r == is_ws(c),
{
    let u = c as u32;
    (0x09 <= u && u <= 0x0D) || u == 0x20 || u == 0x85 || u == 0xA0 || u == 0x1680 || (0x2000 <= u
        && u <= 0x200A) || u == 0x2028 || u == 0x2029 || u == 0x202F || u == 0x205F || u == 0x3000
}

/// The input with its leading whitespace removed.
pub open spec fn drop_leading_ws(s: Seq<char>) -> Seq<char>
    decreases s.len(),
{
    if s.len() > 0 && is_ws(s[0]) {
        drop_leading_ws(s.drop_first())
    } else {
        s
    }
}

/// The input with its trailing whitespace removed.
pub open spec fn drop_trailing_ws(s: Seq<char>) -> Seq<char>
    decreases s.len(),
{
    if s.len() > 0 && is_ws(s.last()) {
        drop_trailing_ws(s.drop_last())
    } else {
        s
    }
}

/// The input without leading and trailing whitespace: what `str::trim`
/// returns.
pub open spec fn trim_spec(s: Seq<char>) -> Seq<char> {
    drop_trailing_ws(drop_leading_ws(s))
}

proof fn lemma_drop_leading_ws_at(s: Seq<char>, i: int)
    requires
        0 <= i <= s.len(),
        forall|k: int| 0 <= k < i ==> is_ws(s[k]),
        i == s.len() || !is_ws(s[i]),
    ensures
        drop_leading_ws(s) == s.skip(i),
    decreases i,
{
    if i == 0 {
        assert(s.skip(0) =~= s);
    } else {
        lemma_drop_leading_ws_at(s.drop_first(), i - 1);
        assert(s.drop_first().skip(i - 1) =~= s.skip(i));
    }
}

proof fn lemma_drop_trailing_ws_at(s: Seq<char>, j: int)
    requires
        0 <= j <= s.len(),
        forall|k: int| j <= k < s.len() ==> is_ws(s[k]),
        j == 0 || !is_ws(s[j - 1]),
    ensures
        drop_trailing_ws(s) == s.take(j),
    decreases s.len() - j,
{
    if j == s.len() {
        assert(s.take(j) =~= s);
    } else {
        lemma_drop_trailing_ws_at(s.drop_last(), j);
        assert(s.drop_last().take(j) =~= s.take(j));
    }
}

/// Whitespace-trims a string, as `str::trim` does.
pub fn trim(s: &str) -> (r: String)
    ensures
        r@ == trim_spec(s@),
{
    let n = s.unicode_len();
    let mut start: usize = 0;
    while start < n && is_ws_char(s.get_char(start))
        invariant
            start <= n,
            n == s@.len(),
            forall|k: int| 0 <= k < start ==> is_ws(s@[k]),
        decreases n - start,
    {
        start += 1;
    }
    let mut end: usize = n;
    while end > start && is_ws_char(s.get_char(end - 1))
        invariant
            start <= end <= n,
            n == s@.len(),
            forall|k: int| end <= k < n ==> is_ws(s@[k]),
        decreases end,
    {
        end -= 1;
    }
    let sub = s.substring_char(start, end);
    proof {
        lemma_drop_leading_ws_at(s@, start as int);
        let mid = s@.skip(start as int);
        assert(forall|k: int| end - start <= k < mid.len() ==> is_ws(#[trigger] mid[k]));
        lemma_drop_trailing_ws_at(mid, end - start);
        assert(mid.take(end - start) =~= s@.subrange(start as int, end as int));
    }
    sub.to_owned()
}

/// Whether `c` matches `p` up to ASCII case, for a pattern character `p`
/// that is not an ASCII capital.
pub open spec fn ieq_char(c: char, p: char) -> bool {
    let cu = c as u32;
    let pu = p as u32;
    cu == pu || (65 <= cu && cu <= 90 && cu + 32 == pu)
}

/// Whether `a` equals `b` once ASCII capitals in `a` are folded to lower
/// case; `b` is expected to hold no ASCII capitals.
pub open spec fn str_ieq(a: Seq<char>, b: Seq<char>) -> bool {
    a.len() == b.len() && forall|i: int| 0 <= i < a.len() ==> ieq_char(a[i], b[i])
}

/// Compares `a` against the pattern `b` ignoring ASCII case in `a`.
pub fn eq_ignore_case(a: &str, b: &str) -> (r: bool)
    ensures
        r == str_ieq(a@, b@),
{
    let na = a.unicode_len();
    let nb = b.unicode_len();
    if na != nb {
        return false;
    }
    let mut i: usize = 0;
    while i < na
        invariant
            i <= na,
            na == a@.len(),
            na == b@.len(),
            forall|k: int| 0 <= k < i ==> ieq_char(a@[k], b@[k]),
        decreases na - i,
    {
        let cu = a.get_char(i) as u32;
        let pu = b.get_char(i) as u32;
        if !(cu == pu || (65 <= cu && cu <= 90 && cu + 32 == pu)) {
            return false;
        }
        i += 1;
    }
    true
}

/// Length of the maximal non-whitespace run at the head of `s`.
pub open spec fn token_len(s: Seq<char>) -> nat
    decreases s.len(),
{
    if s.len() == 0 || is_ws(s[0]) {
        0
    } else {
        1 + token_len(s.drop_first())
    }
}

proof fn lemma_token_len_le(s: Seq<char>)
    ensures
        token_len(s) <= s.len(),
    decreases s.len(),
{
    if s.len() > 0 && !is_ws(s[0]) {
        lemma_token_len_le(s.drop_first());
    }
}

proof fn lemma_token_len_run(s: Seq<char>, i: int)
    requires
        0 <= i <= s.len(),
        forall|k: int| 0 <= k < i ==> !is_ws(s[k]),
        i == s.len() || is_ws(s[i]),
    ensures
        token_len(s) == i,
    decreases i,
{
    if i > 0 {
        lemma_token_len_run(s.drop_first(), i - 1);
    }
}

/// The whitespace-separated tokens of `s`, in order: what
/// `str::split_whitespace` yields.
pub open spec fn tokens_spec(s: Seq<char>) -> Seq<Seq<char>>
    decreases s.len(),
    via tokens_spec_decreases
{
    if s.len() == 0 {
        Seq::empty()
    } else if is_ws(s[0]) {
        tokens_spec(s.drop_first())
    } else {
        seq![s.take(token_len(s) as int)] + tokens_spec(s.skip(token_len(s) as int))
    }
}

#[via_fn]
proof fn tokens_spec_decreases(s: Seq<char>) {
    if s.len() > 0 && !is_ws(s[0]) {
        lemma_token_len_le(s);
        assert(token_len(s) >= 1);
    }
}

/// Splits `s` at whitespace into its tokens.
pub fn tokenize(s: &str) -> (v: Vec<String>)
    ensures
        v.deep_view() == tokens_spec(s@),
{
    let n = s.unicode_len();
    let mut out: Vec<String> = Vec::new();
    let mut i: usize = 0;
    proof {
        assert(s@.skip(0) =~= s@);
        assert(out.deep_view() + tokens_spec(s@) =~~= tokens_spec(s@));
    }
    while i < n
        invariant
            n == s@.len(),
            i <= n,
            out.deep_view() + tokens_spec(s@.skip(i as int)) == tokens_spec(s@),
        decreases n - i,
    {
        if is_ws_char(s.get_char(i)) {
            proof {
                let rest = s@.skip(i as int);
                assert(rest[0] == s@[i as int]);
                assert(rest.drop_first() =~= s@.skip(i + 1));
                assert(tokens_spec(rest) == tokens_spec(s@.skip(i + 1)));
            }
            i += 1;
        } else {
            let start = i;
            let mut j = i + 1;
            while j < n && !is_ws_char(s.get_char(j))
                invariant
                    start < j <= n,
                    n == s@.len(),
                    forall|k: int| start <= k < j ==> !is_ws(s@[k]),
                decreases n - j,
            {
                j += 1;
            }
            let tok = s.substring_char(start, j).to_owned();
            let ghost old_out = out.deep_view();
            out.push(tok);
            proof {
                let rest = s@.skip(start as int);
                assert forall|k: int| 0 <= k < j - start implies !is_ws(rest[k]) by {
                    assert(rest[k] == s@[start + k]);
                }
                lemma_token_len_run(rest, j - start);
                assert(rest.take(j - start) =~= s@.subrange(start as int, j as int));
                assert(rest.skip(j - start) =~= s@.skip(j as int));
                assert(out.deep_view() =~~= old_out + seq![s@.subrange(
                    start as int,
                    j as int,
                )]);
                assert(out.deep_view() + tokens_spec(s@.skip(j as int)) =~~= tokens_spec(s@));
            }
            i = j;
        }
    }
    proof {
        assert(s@.skip(n as int) =~= Seq::<char>::empty());
        assert(out.deep_view() =~~= tokens_spec(s@));
    }
    out
}

/// The decimal digit character for a value below ten.
pub open spec fn dec_digit(d: nat) -> char {
    if d == 0 {
        '0'
    } else if d == 1 {
        '1'
    } else if d == 2 {
        '2'
    } else if d == 3 {
        '3'
    } else if d == 4 {
        '4'
    } else if d == 5 {
        '5'
    } else if d == 6 {
        '6'
    } else if d == 7 {
        '7'
    } else if d == 8 {
        '8'
    } else {
        '9'
    }
}

/// The decimal representation of `n`, without a sign and without leading
/// zeros (a single `'0'` for zero).
pub open spec fn dec_rep(n: nat) -> Seq<char>
    decreases n,
{
    if n < 10 {
        seq![dec_digit(n)]
    } else {
        dec_rep(n / 10).push(dec_digit(n % 10))
    }
}

fn digit_str(d: usize) -> (r: &'static str)
    requires
        d < 10,
    ensures
        r@ == seq![dec_digit(d as nat)],
{
    proof {
        reveal_strlit("0");
        reveal_strlit("1");
        reveal_strlit("2");
        reveal_strlit("3");
        reveal_strlit("4");
        reveal_strlit("5");
        reveal_strlit("6");
        reveal_strlit("7");
        reveal_strlit("8");
        reveal_strlit("9");
    }
    let r: &'static str = if d == 0 {
        "0"
    } else if d == 1 {
        "1"
    } else if d == 2 {
        "2"
    } else if d == 3 {
        "3"
    } else if d == 4 {
        "4"
    } else if d == 5 {
        "5"
    } else if d == 6 {
        "6"
    } else if d == 7 {
        "7"
    } else if d == 8 {
        "8"
    } else {
        "9"
    };
    proof {
        assert(r@ =~= seq![dec_digit(d as nat)]);
    }
    r
}

/// Formats `n` in decimal.
pub fn usize_to_string(n: usize) -> (r: String)
    ensures
        r@ == dec_rep(n as nat),
    decreases n,
{
    if n < 10 {
        digit_str(n).to_owned()
    } else {
        let mut s = usize_to_string(n / 10);
        s.append(digit_str(n % 10));
        proof {
            assert(s@ =~= dec_rep(n as nat));
        }
        s
    }
}

/// Whether the two strings hold the same characters.
pub fn str_eq(a: &str, b: &str) -> (r: bool)
    ensures
        r == (a@ == b@),
{
    a.to_owned() == b.to_owned()
}

/// Appends one character to a string.
///
/// Relies on `String::push` of std: it appends exactly the given character.
#[verifier::external_body]
pub fn push_char(s: &mut String, c: char)
    ensures
        final(s)@ == old(s)@.push(c),
{
    s.push(c);
}

/// Removes and returns the last character of a string, if any.
///
/// Relies on `String::pop` of std: it removes exactly the last character and
/// returns it, or returns `None` when the string is empty.
#[verifier::external_body]
pub fn pop_char(s: &mut String) -> (r: Option<char>)
    ensures
        old(s)@.len() == 0 ==> final(s)@ == old(s)@ && r is None,
        old(s)@.len() > 0 ==> final(s)@ == old(s)@.drop_last() && r == Some(old(s)@.last()),
{
    s.pop()
}

/// The items joined with a comma and a space between neighbours.
pub open spec fn join_comma_spec(items: Seq<Seq<char>>) -> Seq<char>
    decreases items.len(),
{
    if items.len() == 0 {
        Seq::empty()
    } else if items.len() == 1 {
        items[0]
    } else {
        items[0] + ", "@ + join_comma_spec(items.drop_first())
    }
}

proof fn lemma_join_comma_push(items: Seq<Seq<char>>, x: Seq<char>)
    requires
        items.len() > 0,
    ensures
        join_comma_spec(items.push(x)) == join_comma_spec(items) + ", "@ + x,
    decreases items.len(),
{
    if items.len() == 1 {
        assert(items.push(x).drop_first() =~~= seq![x]);
        assert(join_comma_spec(seq![x]) == x);
        assert(items.push(x)[0] == items[0]);
        assert(join_comma_spec(items.push(x)) =~= join_comma_spec(items) + ", "@ + x);
    } else {
        lemma_join_comma_push(items.drop_first(), x);
        assert(items.push(x).drop_first() =~~= items.drop_first().push(x));
        assert(items.push(x)[0] == items[0]);
        assert(join_comma_spec(items.push(x)) =~= join_comma_spec(items) + ", "@ + x);
    }
}

/// Joins the items with `", "` between neighbours.
pub fn join_comma(items: &Vec<String>) -> (r: String)
    ensures
        r@ == join_comma_spec(items.deep_view()),
{
    let mut r = String::new();
    let mut i: usize = 0;
    while i < items.len()
        invariant
            i <= items@.len(),
            r@ == join_comma_spec(items.deep_view().take(i as int)),
        decreases items@.len() - i,
    {
        if i > 0 {
            r.append(", ");
        }
        r.append(items[i].as_str());
        proof {
            let dv = items.deep_view();
            assert(dv.take(i as int).push(dv[i as int]) =~~= dv.take(i + 1));
            if i > 0 {
                lemma_join_comma_push(dv.take(i as int), dv[i as int]);
            } else {
                assert(dv.take(1) =~~= seq![dv[0]]);
            }
            assert(r@ =~= join_comma_spec(dv.take(i + 1)));
        }
        i += 1;
    }
    proof {
        assert(items.deep_view().take(items@.len() as int) =~~= items.deep_view());
    }
    r
}

} // verus!
