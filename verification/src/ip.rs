//! Textual IPv4 addresses: parsing a dotted quad and formatting one.
//!
//! The grammar is the strict dotted quad: four decimal octets separated by
//! dots, each between 0 and 255, with no leading zeros (a lone `0` is
//! allowed).  The host's `unban` command goes through this parser.

use vstd::prelude::*;

use crate::state::IpV4;
use crate::strutil::dec_rep;
use crate::strutil::usize_to_string;

verus! {

/// Whether `c` is a decimal digit.
pub open spec fn is_digit(c: char) -> bool {
    48 <= c as u32 <= 57
}

/// The value of a digit character.
pub open spec fn digit_val(c: char) -> int {
    c as u32 - 48
}

/// The decimal value of a digit string.
pub open spec fn octet_val(s: Seq<char>) -> int
    decreases s.len(),
{
    if s.len() == 0 {
        0
    } else {
        octet_val(s.drop_last()) * 10 + digit_val(s.last())
    }
}

/// Whether `s` is a valid octet field: one or more digits, no leading zero
/// unless it is exactly `0`, value at most 255.
pub open spec fn octet_str(s: Seq<char>) -> bool {
    &&& s.len() >= 1
    &&& forall|i: int| 0 <= i < s.len() ==> is_digit(#[trigger] s[i])
    &&& s.len() > 1 ==> s[0] as u32 != 48
    &&& 0 <= octet_val(s) <= 255
}

/// Whether positions `a < b < c` split `s` into four valid octet fields
/// separated by dots.
pub open spec fn ipv4_split(s: Seq<char>, a: int, b: int, c: int) -> bool {
    &&& 0 <= a < b < c < s.len()
    &&& s[a] as u32 == 46
    &&& s[b] as u32 == 46
    &&& s[c] as u32 == 46
    &&& octet_str(s.subrange(0, a))
    &&& octet_str(s.subrange(a + 1, b))
    &&& octet_str(s.subrange(b + 1, c))
    &&& octet_str(s.subrange(c + 1, s.len() as int))
}

/// The address value of a split.
pub open spec fn ipv4_value(s: Seq<char>, a: int, b: int, c: int) -> int {
    octet_val(s.subrange(0, a)) * 0x1000000 + octet_val(s.subrange(a + 1, b)) * 0x10000
        + octet_val(s.subrange(b + 1, c)) * 0x100 + octet_val(s.subrange(c + 1, s.len() as int))
}

/// Whether `s` is a valid dotted quad.
pub open spec fn spec_valid_ipv4(s: Seq<char>) -> bool {
    exists|a: int, b: int, c: int| ipv4_split(s, a, b, c)
}

proof fn lemma_octet_val_nonneg(s: Seq<char>)
    requires
        forall|i: int| 0 <= i < s.len() ==> is_digit(#[trigger] s[i]),
    ensures
        octet_val(s) >= 0,
    decreases s.len(),
{
    if s.len() > 0 {
        lemma_octet_val_nonneg(s.drop_last());
    }
}

proof fn lemma_octet_val_prefix_grows(s: Seq<char>, m: int)
    requires
        0 <= m <= s.len(),
        forall|i: int| 0 <= i < s.len() ==> is_digit(#[trigger] s[i]),
    ensures
        octet_val(s) >= octet_val(s.subrange(0, m)),
    decreases s.len() - m,
{
    if m == s.len() {
        assert(s.subrange(0, m) =~= s);
    } else {
        lemma_octet_val_prefix_grows(s, m + 1);
        let p = s.subrange(0, m + 1);
        assert(p.drop_last() =~= s.subrange(0, m));
        assert(forall|i: int| 0 <= i < p.len() ==> is_digit(#[trigger] p[i]));
        lemma_octet_val_nonneg(s.subrange(0, m));
        assert(octet_val(p) == octet_val(s.subrange(0, m)) * 10 + digit_val(p.last()));
        assert(digit_val(p.last()) >= 0);
        assert(octet_val(s.subrange(0, m)) * 10 >= octet_val(s.subrange(0, m))) by (nonlinear_arith)
            requires
                octet_val(s.subrange(0, m)) >= 0,
        ;
    }
}

/// Parses one octet field of `s`, the characters from `from` to `to`.
fn parse_octet(s: &str, from: usize, to: usize) -> (r: Option<u32>)
    requires
        from <= to <= s@.len(),
    ensures
        ({
            let field = s@.subrange(from as int, to as int);
            match r {
                Some(v) => octet_str(field) && v == octet_val(field),
                None => !octet_str(field),
            }
        }),
{
    let ghost field = s@.subrange(from as int, to as int);
    if to == from {
        return None;
    }
    if to - from > 1 && s.get_char(from) as u32 == 48 {
        return None;
    }
    let mut val: u32 = 0;
    let mut i = from;
    while i < to
        invariant
            from <= i <= to <= s@.len(),
            field == s@.subrange(from as int, to as int),
            forall|k: int| 0 <= k < i - from ==> is_digit(#[trigger] field[k]),
            val == octet_val(field.subrange(0, i - from)),
            val <= 255,
        decreases to - i,
    {
        let u = s.get_char(i) as u32;
        if u < 48 || u > 57 {
            proof {
                assert(field[i - from] == s@[i as int]);
                assert(!is_digit(field[i - from]));
            }
            return None;
        }
        val = val * 10 + (u - 48);
        proof {
            let m = i - from;
            let p = field.subrange(0, m + 1);
            assert(p.drop_last() =~= field.subrange(0, m));
            assert(p.last() == field[m]);
            assert(field[m] == s@[i as int]);
        }
        if val > 255 {
            proof {
                if octet_str(field) {
                    lemma_octet_val_prefix_grows(field, i + 1 - from);
                }
            }
            return None;
        }
        i += 1;
    }
    proof {
        assert(field.subrange(0, to - from) =~= field);
        if to - from > 1 {
            assert(field[0] == s@[from as int]);
        }
    }
    Some(val)
}

/// Parses a dotted-quad IPv4 address: `Some` with its value exactly when
/// the string is four valid octet fields separated by dots.
pub fn parse_ipv4(s: &str) -> (r: Option<IpV4>)
    ensures
        match r {
            Some(v) => exists|a: int, b: int, c: int|
                #[trigger] ipv4_split(s@, a, b, c) && v == ipv4_value(s@, a, b, c),
            None => !spec_valid_ipv4(s@),
        },
{
    let n = s.unicode_len();
    let mut dots: Vec<usize> = Vec::new();
    let mut i: usize = 0;
    while i < n
        invariant
            i <= n,
            n == s@.len(),
            forall|k: int| 0 <= k < dots@.len() ==> (#[trigger] dots@[k]) < i,
            forall|k1: int, k2: int| 0 <= k1 < k2 < dots@.len() ==> dots@[k1] < dots@[k2],
            forall|k: int| 0 <= k < dots@.len() ==> s@[(#[trigger] dots@[k]) as int] as u32 == 46,
            forall|j: int|
                0 <= j < i && s@[j] as u32 == 46 ==> dots@.contains(j as usize),
        decreases n - i,
    {
        if s.get_char(i) as u32 == 46 {
            let ghost pre = dots@;
            dots.push(i);
            proof {
                assert(dots@[dots@.len() - 1] == i as usize);
                assert(forall|j: int|
                    0 <= j < i && s@[j] as u32 == 46 ==> pre.contains(j as usize));
                assert forall|j: int| 0 <= j < i + 1 && s@[j] as u32 == 46 implies dots@.contains(
                    j as usize,
                ) by {
                    if j < i as int {
                        let w = choose|w: int| 0 <= w < pre.len() && pre[w] == j as usize;
                        assert(dots@[w] == j as usize);
                    } else {
                        assert(dots@[dots@.len() - 1] == j as usize);
                    }
                }
            }
        }
        i += 1;
    }
    if dots.len() != 3 {
        proof {
            assert forall|a: int, b: int, c: int| !ipv4_split(s@, a, b, c) by {
                if ipv4_split(s@, a, b, c) {
                    lemma_split_dots_exact(s@, a, b, c, dots@);
                }
            }
        }
        return None;
    }
    let a = dots[0];
    let b = dots[1];
    let c = dots[2];
    proof {
        assert forall|x: int, y: int, z: int| ipv4_split(s@, x, y, z) implies x == a as int && y
            == b as int && z == c as int by {
            lemma_split_dots_exact(s@, x, y, z, dots@);
        }
    }
    let o0 = parse_octet(s, 0, a);
    let o1 = parse_octet(s, a + 1, b);
    let o2 = parse_octet(s, b + 1, c);
    let o3 = parse_octet(s, c + 1, n);
    match (o0, o1, o2, o3) {
        (Some(v0), Some(v1), Some(v2), Some(v3)) => {
            let v = v0 * 0x1000000 + v1 * 0x10000 + v2 * 0x100 + v3;
            proof {
                assert(ipv4_split(s@, a as int, b as int, c as int));
            }
            Some(v)
        },
        _ => None,
    }
}

/// In a valid split the dots of the string are exactly the three
/// separators, so a complete increasing list of the string's dot
/// positions is `[a, b, c]`.
proof fn lemma_split_dots_exact(s: Seq<char>, a: int, b: int, c: int, dots: Seq<usize>)
    requires
        s.len() <= usize::MAX,
        ipv4_split(s, a, b, c),
        forall|k: int| 0 <= k < dots.len() ==> (#[trigger] dots[k]) < s.len(),
        forall|k1: int, k2: int| 0 <= k1 < k2 < dots.len() ==> dots[k1] < dots[k2],
        forall|k: int| 0 <= k < dots.len() ==> s[(#[trigger] dots[k]) as int] as u32 == 46,
        forall|j: int| 0 <= j < s.len() && s[j] as u32 == 46 ==> dots.contains(j as usize),
    ensures
        dots.len() == 3,
        dots[0] == a,
        dots[1] == b,
        dots[2] == c,
{
    lemma_split_nondots(s, a, b, c);
    assert(dots.contains(a as usize));
    assert(dots.contains(b as usize));
    assert(dots.contains(c as usize));
    let ka = choose|k: int| 0 <= k < dots.len() && dots[k] == a as usize;
    let kb = choose|k: int| 0 <= k < dots.len() && dots[k] == b as usize;
    let kc = choose|k: int| 0 <= k < dots.len() && dots[k] == c as usize;
    assert(ka < kb) by {
        if ka > kb {
            assert(dots[kb] < dots[ka]);
        } else if ka == kb {
            assert(dots[ka] == dots[kb]);
        }
    }
    assert(kb < kc) by {
        if kb > kc {
            assert(dots[kc] < dots[kb]);
        } else if kb == kc {
            assert(dots[kb] == dots[kc]);
        }
    }
    assert(dots.len() >= 3);
    assert forall|k: int| 0 <= k < dots.len() implies dots[k] == a as usize || dots[k]
        == b as usize || dots[k] == c as usize by {
        assert(s[dots[k] as int] as u32 == 46);
    }
    if dots.len() > 3 {
        assert(dots[0] < dots[1] < dots[2] < dots[3]);
        assert(dots[0] == a as usize || dots[0] == b as usize || dots[0] == c as usize);
        assert(dots[1] == a as usize || dots[1] == b as usize || dots[1] == c as usize);
        assert(dots[2] == a as usize || dots[2] == b as usize || dots[2] == c as usize);
        assert(dots[3] == a as usize || dots[3] == b as usize || dots[3] == c as usize);
        assert(false);
    }
    assert(ka == 0 && kb == 1 && kc == 2) by {
        assert(0 <= ka < 3 && 0 <= kb < 3 && 0 <= kc < 3);
        assert(ka < kb < kc);
    }
}

/// The dotted-quad text of an address.
pub open spec fn ip_rep(v: IpV4) -> Seq<char> {
    dec_rep((v >> 24) as nat) + "."@ + dec_rep(((v >> 16) & 0xFF) as nat) + "."@ + dec_rep(
        ((v >> 8) & 0xFF) as nat,
    ) + "."@ + dec_rep((v & 0xFF) as nat)
}


/// In a valid split every position off the three separators holds a digit,
/// never a dot.
proof fn lemma_split_nondots(s: Seq<char>, a: int, b: int, c: int)
    requires
        ipv4_split(s, a, b, c),
    ensures
        forall|j: int|
            0 <= j < s.len() && j != a && j != b && j != c ==> s[j] as u32 != 46,
{
    assert forall|j: int| 0 <= j < s.len() && j != a && j != b && j != c implies s[j] as u32
        != 46 by {
        if j < a {
            assert(s.subrange(0, a)[j] == s[j]);
            assert(is_digit(s.subrange(0, a)[j]));
        } else if j < b {
            assert(s.subrange(a + 1, b)[j - a - 1] == s[j]);
            assert(is_digit(s.subrange(a + 1, b)[j - a - 1]));
        } else if j < c {
            assert(s.subrange(b + 1, c)[j - b - 1] == s[j]);
            assert(is_digit(s.subrange(b + 1, c)[j - b - 1]));
        } else {
            assert(s.subrange(c + 1, s.len() as int)[j - c - 1] == s[j]);
            assert(is_digit(s.subrange(c + 1, s.len() as int)[j - c - 1]));
        }
    }
}

/// A string has at most one valid split, so a dotted quad has one value.
pub proof fn lemma_ipv4_split_unique(
    s: Seq<char>,
    a1: int,
    b1: int,
    c1: int,
    a2: int,
    b2: int,
    c2: int,
)
    requires
        ipv4_split(s, a1, b1, c1),
        ipv4_split(s, a2, b2, c2),
    ensures
        a1 == a2,
        b1 == b2,
        c1 == c2,
{
    lemma_split_nondots(s, a1, b1, c1);
    assert(a2 == a1 || a2 == b1 || a2 == c1);
    assert(b2 == a1 || b2 == b1 || b2 == c1);
    assert(c2 == a1 || c2 == b1 || c2 == c1);
}

/// Formats an address as a dotted quad.
pub fn format_ipv4(v: IpV4) -> (r: String)
    ensures
        r@ == ip_rep(v),
{
    let o0 = v >> 24;
    let o1 = (v >> 16) & 0xFF;
    let o2 = (v >> 8) & 0xFF;
    let o3 = v & 0xFF;
    let r = usize_to_string(o0 as usize).concat(".").concat(
        usize_to_string(o1 as usize).as_str(),
    ).concat(".").concat(usize_to_string(o2 as usize).as_str()).concat(".").concat(
        usize_to_string(o3 as usize).as_str(),
    );
    proof {
        assert(o0 as nat == (v >> 24) as nat);
    }
    r
}

} // verus!
