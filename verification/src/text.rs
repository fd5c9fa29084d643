//! Text utilities: whitespace trimming, lexicographic comparison, and the
//! boolean literals.

use vstd::prelude::*;

verus! {

pub open spec fn is_space(c: char) -> bool {
    c == ' ' || c == '\t' || c == '\n' || c == '\r'
}

pub open spec fn trim_front(s: Seq<char>) -> Seq<char>
    decreases s.len(),
{
    if s.len() > 0 && is_space(s[0]) {
        trim_front(s.drop_first())
    } else {
        s
    }
}

pub open spec fn trim_back(s: Seq<char>) -> Seq<char>
    decreases s.len(),
{
    if s.len() > 0 && is_space(s.last()) {
        trim_back(s.drop_last())
    } else {
        s
    }
}

/// The text with leading and trailing whitespace removed.
pub open spec fn trim_v(s: Seq<char>) -> Seq<char> {
    trim_back(trim_front(s))
}

fn is_space_c(c: char) -> (b: bool)
    ensures
        b == is_space(c),
{
    c == ' ' || c == '\t' || c == '\n' || c == '\r'
}

/// Remove leading and trailing whitespace.
pub fn trim_str<'a>(s: &'a str) -> (r: &'a str)
    ensures
        r@ == trim_v(s@),
{
    let len = s.unicode_len();
    proof {
        assert(s@.subrange(0, len as int) =~= s@);
    }
    let mut lo: usize = 0;
    loop
        invariant
            0 <= lo <= len,
            len == s@.len(),
            trim_front(s@) == trim_front(s@.subrange(lo as int, len as int)),
        ensures
            0 <= lo <= len,
            len == s@.len(),
            trim_front(s@) == trim_front(s@.subrange(lo as int, len as int)),
            lo == len || !is_space(s@[lo as int]),
        decreases len - lo,
    {
        if lo < len && is_space_c(s.get_char(lo)) {
            proof {
                assert(s@.subrange(lo as int, len as int).drop_first() =~= s@.subrange(
                    lo as int + 1,
                    len as int,
                ));
            }
            lo = lo + 1;
        } else {
            break ;
        }
    }
    let mut hi: usize = len;
    loop
        invariant
            0 <= lo <= hi <= len,
            len == s@.len(),
            trim_front(s@) == trim_front(s@.subrange(lo as int, len as int)),
            lo < len ==> !is_space(s@[lo as int]),
            trim_back(trim_front(s@)) == trim_back(s@.subrange(lo as int, hi as int)),
        ensures
            0 <= lo <= hi <= len,
            len == s@.len(),
            trim_back(trim_front(s@)) == s@.subrange(lo as int, hi as int),
        decreases hi,
    {
        if hi > lo && is_space_c(s.get_char(hi - 1)) {
            proof {
                assert(s@.subrange(lo as int, hi as int).drop_last() =~= s@.subrange(
                    lo as int,
                    hi as int - 1,
                ));
            }
            hi = hi - 1;
        } else {
            proof {
                if hi > lo {
                    assert(s@.subrange(lo as int, hi as int).last() == s@[hi as int - 1]);
                }
                assert(trim_back(s@.subrange(lo as int, hi as int)) == s@.subrange(
                    lo as int,
                    hi as int,
                ));
            }
            break ;
        }
    }
    let r = s.substring_char(lo, hi);
    r
}

/// Strict lexicographic order on character sequences: shorter prefixes come
/// first, otherwise the first differing character decides.
pub open spec fn lex_lt(a: Seq<char>, b: Seq<char>) -> bool
    decreases a.len(),
{
    if b.len() == 0 {
        false
    } else if a.len() == 0 {
        true
    } else if (a[0] as int) < (b[0] as int) {
        true
    } else if (a[0] as int) > (b[0] as int) {
        false
    } else {
        lex_lt(a.drop_first(), b.drop_first())
    }
}

proof fn lemma_lex_lt_skip(a: Seq<char>, b: Seq<char>, i: int)
    requires
        0 <= i <= a.len(),
        i <= b.len(),
        forall|j: int| 0 <= j < i ==> a[j] == b[j],
    ensures
        lex_lt(a, b) == lex_lt(a.skip(i), b.skip(i)),
    decreases i,
{
    if i == 0 {
        assert(a.skip(0) =~= a);
        assert(b.skip(0) =~= b);
    } else {
        assert(a[0] == b[0]);
        lemma_lex_lt_skip(a.drop_first(), b.drop_first(), i - 1);
        assert(a.drop_first().skip(i - 1) =~= a.skip(i));
        assert(b.drop_first().skip(i - 1) =~= b.skip(i));
    }
}

/// Whether `a` comes strictly before `b` in lexicographic order.
pub fn str_lt(a: &str, b: &str) -> (r: bool)
    ensures
        r == lex_lt(a@, b@),
{
    let alen = a.unicode_len();
    let blen = b.unicode_len();
    let mut i: usize = 0;
    loop
        invariant
            0 <= i <= alen,
            i <= blen,
            alen == a@.len(),
            blen == b@.len(),
            forall|j: int| 0 <= j < i ==> a@[j] == b@[j],
        decreases alen - i,
    {
        if i < alen && i < blen {
            let ca = a.get_char(i);
            let cb = b.get_char(i);
            let cau = ca as u32;
            let cbu = cb as u32;
            if cau < cbu {
                proof {
                    lemma_lex_lt_skip(a@, b@, i as int);
                }
                return true;
            } else if cau > cbu {
                proof {
                    lemma_lex_lt_skip(a@, b@, i as int);
                }
                return false;
            }
            proof {
                assert(a@[i as int] == b@[i as int]);
            }
            i = i + 1;
        } else {
            proof {
                lemma_lex_lt_skip(a@, b@, i as int);
            }
            return alen < blen;
        }
    }
}

/// The text of a boolean value.
pub open spec fn bool_text(b: bool) -> Seq<char> {
    if b {
        "true"@
    } else {
        "false"@
    }
}

/// Parsing a boolean from text: exactly `true` or `false`, nothing else.
pub open spec fn parse_bool_v(s: Seq<char>) -> Option<bool> {
    if s == "true"@ {
        Option::Some(true)
    } else if s == "false"@ {
        Option::Some(false)
    } else {
        Option::None
    }
}

/// Parse a boolean from text.
pub fn parse_bool(s: &String) -> (r: Option<bool>)
    ensures
        r == parse_bool_v(s@),
{
    let t = "true".to_owned();
    let f = "false".to_owned();
    if *s == t {
        Option::Some(true)
    } else if *s == f {
        Option::Some(false)
    } else {
        Option::None
    }
}

} // verus!
