//! Character-level helpers on texts: blankness, ASCII case folding and
//! substring search.
use vstd::prelude::*;
use vstd::std_specs::iter::IteratorSpec;
use crate::format::push_char;

verus! {

broadcast use vstd::string::group_string_axioms;

/// The Unicode `White_Space` property.
pub open spec fn is_white_space(c: char) -> bool {
    ('\t' <= c && c <= '\r') || c == ' ' || c == '\u{85}' || c == '\u{a0}' || c == '\u{1680}'
        || ('\u{2000}' <= c && c <= '\u{200a}') || c == '\u{2028}' || c == '\u{2029}'
        || c == '\u{202f}' || c == '\u{205f}' || c == '\u{3000}'
}

/// A text is blank when every character in it is white space.
pub open spec fn blank(t: Seq<char>) -> bool {
    forall|i: int| 0 <= i < t.len() ==> is_white_space(#[trigger] t[i])
}

pub fn white_space(c: char) -> (r: bool)
    ensures
        r == is_white_space(c),
{
    ('\t' <= c && c <= '\r') || c == ' ' || c == '\u{85}' || c == '\u{a0}' || c == '\u{1680}'
        || ('\u{2000}' <= c && c <= '\u{200a}') || c == '\u{2028}' || c == '\u{2029}'
        || c == '\u{202f}' || c == '\u{205f}' || c == '\u{3000}'
}

/// Whether a text is empty or holds only white space.
pub fn is_blank(s: &str) -> (r: bool)
    ensures
        r == blank(s@),
{
    let mut it = s.chars();
    let ghost mut k: int = 0;
    loop
        invariant
            0 <= k <= s@.len(),
            it.remaining() == s@.skip(k),
            forall|i: int| 0 <= i < k ==> is_white_space(#[trigger] s@[i]),
        decreases s@.len() - k,
    {
        let ghost before = it.remaining();
        match it.next() {
            None => {
                assert(before.len() == 0);
                return true;
            },
            Some(c) => {
                assert(before[0] == s@[k]);
                if !white_space(c) {
                    return false;
                }
                proof {
                    assert(s@.skip(k + 1) =~= before.drop_first());
                    k = k + 1;
                }
            },
        }
    }
}

/// Whether `needle` occurs in `hay` at position `i`.
pub open spec fn occurs_at(hay: Seq<char>, needle: Seq<char>, i: int) -> bool {
    0 <= i && i + needle.len() <= hay.len() && hay.subrange(i, i + needle.len()) == needle
}

/// Whether `needle` occurs anywhere in `hay`.
pub open spec fn contains(hay: Seq<char>, needle: Seq<char>) -> bool {
    exists|i: int| occurs_at(hay, needle, i)
}

/// The lowercase mapping of a text, as `str::to_lowercase` computes it.
pub uninterp spec fn lower_of(s: Seq<char>) -> Seq<char>;

/// Relies on str::to_lowercase: the Unicode lowercase mapping, which
/// depends on the characters alone.
#[verifier::external_body]
pub(crate) fn lowercase(s: &str) -> (r: String)
    ensures
        r@ == lower_of(s@),
{
    s.to_lowercase()
}

/// The characters of a text.
pub fn chars_of(s: &str) -> (r: Vec<char>)
    ensures
        r@ == s@,
{
    let mut out: Vec<char> = Vec::new();
    let mut it = s.chars();
    loop
        invariant
            out@.len() <= s@.len(),
            it.remaining() == s@.skip(out@.len() as int),
            out@ == s@.take(out@.len() as int),
        decreases s@.len() - out@.len(),
    {
        let ghost before = it.remaining();
        let ghost k = out@.len() as int;
        match it.next() {
            None => {
                assert(before.len() == 0);
                assert(s@.take(k) =~= s@);
                return out;
            },
            Some(c) => {
                assert(before[0] == s@[k]);
                out.push(c);
                assert(out@ =~= s@.take(k + 1));
                assert(s@.skip(k + 1) =~= before.drop_first());
            },
        }
    }
}

/// Whether `needle` occurs in `hay` at position `i`.
pub fn matches_at(hay: &Vec<char>, needle: &Vec<char>, i: usize) -> (r: bool)
    requires
        i <= hay@.len(),
    ensures
        r == occurs_at(hay@, needle@, i as int),
{
    if needle.len() > hay.len() - i {
        return false;
    }
    let mut k: usize = 0;
    while k < needle.len()
        invariant
            i + needle@.len() <= hay@.len() <= usize::MAX,
            0 <= k <= needle@.len(),
            forall|m: int| 0 <= m < k ==> hay@[i + m] == needle@[m],
        decreases needle@.len() - k,
    {
        if hay[i + k] != needle[k] {
            assert(hay@.subrange(i as int, i + needle@.len())[k as int] != needle@[k as int]);
            return false;
        }
        k = k + 1;
    }
    assert(hay@.subrange(i as int, i + needle@.len()) =~= needle@);
    true
}

/// Whether `needle` occurs in `hay`.
pub fn find_in(hay: &Vec<char>, needle: &Vec<char>) -> (r: Option<usize>)
    ensures
        match r {
            Some(i) => occurs_at(hay@, needle@, i as int)
                && forall|j: int| 0 <= j < i ==> !occurs_at(hay@, needle@, j),
            None => !contains(hay@, needle@),
        },
{
    if needle.len() == 0 {
        assert(hay@.subrange(0, 0) =~= needle@);
        return Some(0);
    }
    let mut i: usize = 0;
    while i < hay.len()
        invariant
            0 <= i <= hay@.len(),
            needle@.len() > 0,
            forall|j: int| 0 <= j < i ==> !occurs_at(hay@, needle@, j),
        decreases hay@.len() - i,
    {
        if matches_at(hay, needle, i) {
            return Some(i);
        }
        i = i + 1;
    }
    assert forall|j: int| !occurs_at(hay@, needle@, j) by {
        if 0 <= j < i {
        } else if j >= i {
            assert(j + needle@.len() > hay@.len());
        }
    }
    None
}

/// Whether a text contains another.
pub fn str_contains(hay: &str, needle: &str) -> (r: bool)
    ensures
        r == contains(hay@, needle@),
{
    let h = chars_of(hay);
    let n = chars_of(needle);
    find_in(&h, &n).is_some()
}

/// Number of white-space characters at the start of a text.
pub open spec fn lead_ws(t: Seq<char>) -> int
    decreases t.len(),
{
    if t.len() > 0 && is_white_space(t[0]) {
        1 + lead_ws(t.drop_first())
    } else {
        0
    }
}

/// Number of white-space characters at the end of a text.
pub open spec fn trail_ws(t: Seq<char>) -> int
    decreases t.len(),
{
    if t.len() > 0 && is_white_space(t.last()) {
        1 + trail_ws(t.drop_last())
    } else {
        0
    }
}

/// A text without its leading and trailing white space.
pub open spec fn trimmed(t: Seq<char>) -> Seq<char> {
    let s = t.skip(lead_ws(t));
    s.take(s.len() - trail_ws(s))
}

proof fn lemma_lead_ws(t: Seq<char>, p: int)
    requires
        0 <= p <= t.len(),
        forall|k: int| 0 <= k < p ==> is_white_space(#[trigger] t[k]),
        p == t.len() || !is_white_space(t[p]),
    ensures
        lead_ws(t) == p,
    decreases t.len(),
{
    if t.len() > 0 && p > 0 {
        let d = t.drop_first();
        assert forall|k: int| 0 <= k < p - 1 implies is_white_space(#[trigger] d[k]) by {
            assert(d[k] == t[k + 1]);
        }
        lemma_lead_ws(d, p - 1);
    }
}

proof fn lemma_trail_ws(t: Seq<char>, q: int)
    requires
        0 <= q <= t.len(),
        forall|k: int| t.len() - q <= k < t.len() ==> is_white_space(#[trigger] t[k]),
        q == t.len() || !is_white_space(t[t.len() - q - 1]),
    ensures
        trail_ws(t) == q,
    decreases t.len(),
{
    if t.len() > 0 && q > 0 {
        let d = t.drop_last();
        assert(is_white_space(t[t.len() - 1]));
        assert forall|k: int| d.len() - (q - 1) <= k < d.len() implies is_white_space(#[trigger] d[k]) by {
            assert(d[k] == t[k]);
        }
        if q - 1 < d.len() {
            assert(d[d.len() - (q - 1) - 1] == t[t.len() - q - 1]);
        }
        lemma_trail_ws(d, q - 1);
    }
}

/// The characters without leading and trailing white space.
pub fn trim_chars(v: &Vec<char>) -> (r: Vec<char>)
    ensures
        r@ == trimmed(v@),
{
    let n = v.len();
    let mut a: usize = 0;
    while a < n && white_space(v[a])
        invariant
            0 <= a <= n,
            n == v@.len(),
            forall|k: int| 0 <= k < a ==> is_white_space(#[trigger] v@[k]),
        decreases n - a,
    {
        a = a + 1;
    }
    proof {
        lemma_lead_ws(v@, a as int);
    }
    let mut b: usize = n;
    while b > a && white_space(v[b - 1])
        invariant
            a <= b <= n,
            n == v@.len(),
            forall|k: int| b <= k < n ==> is_white_space(#[trigger] v@[k]),
        decreases b,
    {
        b = b - 1;
    }
    let ghost s = v@.skip(a as int);
    proof {
        assert forall|k: int| s.len() - (n - b) <= k < s.len() implies is_white_space(#[trigger] s[k]) by {
            assert(s[k] == v@[a + k]);
        }
        if b > a {
            assert(s[s.len() - (n - b) - 1] == v@[b - 1]);
        }
        lemma_trail_ws(s, (n - b) as int);
    }
    let mut r: Vec<char> = Vec::new();
    let mut i: usize = a;
    while i < b
        invariant
            a <= i <= b <= n,
            n == v@.len(),
            r@ == v@.subrange(a as int, i as int),
        decreases b - i,
    {
        r.push(v[i]);
        i = i + 1;
        assert(r@ =~= v@.subrange(a as int, i as int));
    }
    assert(r@ =~= trimmed(v@));
    r
}

/// The characters `from..to` as a string.
pub fn string_of(cs: &Vec<char>, from: usize, to: usize) -> (r: String)
    requires
        from <= to <= cs@.len(),
    ensures
        r@ == cs@.subrange(from as int, to as int),
{
    let mut s = String::new();
    let mut i: usize = from;
    while i < to
        invariant
            from <= i <= to <= cs@.len(),
            s@ == cs@.subrange(from as int, i as int),
        decreases to - i,
    {
        push_char(&mut s, cs[i]);
        i = i + 1;
        assert(s@ =~= cs@.subrange(from as int, i as int));
    }
    s
}

} // verus!
