//! Character-sequence helpers shared by the declaration parser, the type
//! mapper and the emitter. Exec functions work on index ranges of a
//! `Vec<char>` and are specified over `Seq<char>`.
use vstd::prelude::*;

verus! {

/// Whitespace as the declaration grammar sees it.
pub open spec fn is_ws(c: char) -> bool {
    c == ' ' || c == '\t' || c == '\r' || c == '\n'
}

/// `s` without its leading whitespace.
pub open spec fn trim_start(s: Seq<char>) -> Seq<char>
    decreases s.len(),
{
    if s.len() > 0 && is_ws(s[0]) {
        trim_start(s.drop_first())
    } else {
        s
    }
}

/// `s` without its trailing whitespace.
pub open spec fn trim_end(s: Seq<char>) -> Seq<char>
    decreases s.len(),
{
    if s.len() > 0 && is_ws(s.last()) {
        trim_end(s.drop_last())
    } else {
        s
    }
}

/// `s` without leading and trailing whitespace.
pub open spec fn trim(s: Seq<char>) -> Seq<char> {
    trim_end(trim_start(s))
}

pub open spec fn is_blank(s: Seq<char>) -> bool {
    trim(s).len() == 0
}

/// Whether the subrange of `s` starting at `i` spells `p`.
pub open spec fn matches_at(s: Seq<char>, p: Seq<char>, i: int) -> bool {
    0 <= i && i + p.len() <= s.len() && s.subrange(i, i + p.len()) == p
}

pub open spec fn starts_with(s: Seq<char>, p: Seq<char>) -> bool {
    matches_at(s, p, 0)
}

pub open spec fn is_first_match(s: Seq<char>, p: Seq<char>, i: int) -> bool {
    &&& matches_at(s, p, i)
    &&& forall|j: int| 0 <= j < i ==> !#[trigger] matches_at(s, p, j)
}

pub open spec fn is_last_match(s: Seq<char>, p: Seq<char>, i: int) -> bool {
    &&& matches_at(s, p, i)
    &&& forall|j: int| i < j ==> !#[trigger] matches_at(s, p, j)
}

/// Index of the first occurrence of `p` in `s`, or -1.
pub open spec fn first_match(s: Seq<char>, p: Seq<char>) -> int {
    if exists|i: int| is_first_match(s, p, i) {
        choose|i: int| is_first_match(s, p, i)
    } else {
        -1
    }
}

/// Index of the last occurrence of `p` in `s`, or -1.
pub open spec fn last_match(s: Seq<char>, p: Seq<char>) -> int {
    if exists|i: int| is_last_match(s, p, i) {
        choose|i: int| is_last_match(s, p, i)
    } else {
        -1
    }
}

pub proof fn lemma_first_match_is(s: Seq<char>, p: Seq<char>, i: int)
    requires
        is_first_match(s, p, i),
    ensures
        first_match(s, p) == i,
{
    let k = choose|k: int| is_first_match(s, p, k);
    assert(is_first_match(s, p, k));
    if k < i {
        assert(!matches_at(s, p, k));
    } else if i < k {
        assert(!matches_at(s, p, i));
    }
}

pub proof fn lemma_first_match_none(s: Seq<char>, p: Seq<char>)
    requires
        forall|j: int| !#[trigger] matches_at(s, p, j),
    ensures
        first_match(s, p) == -1,
{
    if exists|i: int| is_first_match(s, p, i) {
        let k = choose|k: int| is_first_match(s, p, k);
        assert(matches_at(s, p, k));
    }
}

pub proof fn lemma_last_match_is(s: Seq<char>, p: Seq<char>, i: int)
    requires
        is_last_match(s, p, i),
    ensures
        last_match(s, p) == i,
{
    let k = choose|k: int| is_last_match(s, p, k);
    assert(is_last_match(s, p, k));
    if k < i {
        assert(!matches_at(s, p, i));
    } else if i < k {
        assert(!matches_at(s, p, k));
    }
}

pub proof fn lemma_last_match_none(s: Seq<char>, p: Seq<char>)
    requires
        forall|j: int| !#[trigger] matches_at(s, p, j),
    ensures
        last_match(s, p) == -1,
{
    if exists|i: int| is_last_match(s, p, i) {
        let k = choose|k: int| is_last_match(s, p, k);
        assert(matches_at(s, p, k));
    }
}

pub proof fn lemma_trim_start_suffix(s: Seq<char>)
    ensures
        exists|k: int| 0 <= k <= s.len() && trim_start(s) == s.subrange(k, s.len() as int),
    decreases s.len(),
{
    if s.len() > 0 && is_ws(s[0]) {
        lemma_trim_start_suffix(s.drop_first());
        let k = choose|k: int|
            0 <= k <= s.drop_first().len() && trim_start(s.drop_first())
                == s.drop_first().subrange(k, s.drop_first().len() as int);
        assert(s.drop_first().subrange(k, s.drop_first().len() as int) =~= s.subrange(
            k + 1,
            s.len() as int,
        ));
    } else {
        assert(s.subrange(0, s.len() as int) =~= s);
    }
}

pub proof fn lemma_trim_start_len(s: Seq<char>)
    ensures
        trim_start(s).len() <= s.len(),
{
    lemma_trim_start_suffix(s);
}

/// The characters of `s`, in order.
pub fn chars_of(s: &str) -> (r: Vec<char>)
    ensures
        r@ == s@,
{
    let n = s.unicode_len();
    let mut r: Vec<char> = Vec::new();
    let mut i: usize = 0;
    while i < n
        invariant
            n == s@.len(),
            i <= n,
            r@ == s@.subrange(0, i as int),
        decreases n - i,
    {
        let c = s.get_char(i);
        r.push(c);
        i = i + 1;
        assert(r@ =~= s@.subrange(0, i as int));
    }
    assert(r@ =~= s@);
    r
}

/// Relies on String::push: appends one character to the string.
#[verifier::external_body]
fn push_char(s: &mut String, c: char)
    ensures
        final(s)@ == old(s)@.push(c),
{
    s.push(c)
}

/// The characters `v[lo..hi]` as a string.
pub fn substring(v: &Vec<char>, lo: usize, hi: usize) -> (r: String)
    requires
        lo <= hi <= v@.len(),
    ensures
        r@ == v@.subrange(lo as int, hi as int),
{
    let mut r = String::new();
    let mut i = lo;
    while i < hi
        invariant
            lo <= i <= hi <= v@.len(),
            r@ == v@.subrange(lo as int, i as int),
        decreases hi - i,
    {
        push_char(&mut r, v[i]);
        i = i + 1;
        assert(r@ =~= v@.subrange(lo as int, i as int));
    }
    r
}

pub fn is_ws_char(c: char) -> (r: bool)
    ensures
        r == is_ws(c),
{
    c == ' ' || c == '\t' || c == '\r' || c == '\n'
}

/// The bounds of `v[lo..hi]` with surrounding whitespace removed.
pub fn trim_bounds(v: &Vec<char>, lo: usize, hi: usize) -> (r: (usize, usize))
    requires
        lo <= hi <= v@.len(),
    ensures
        lo <= r.0 <= r.1 <= hi,
        v@.subrange(r.0 as int, r.1 as int) == trim(v@.subrange(lo as int, hi as int)),
{
    let mut a = lo;
    while a < hi && is_ws_char(v[a])
        invariant
            lo <= a <= hi <= v@.len(),
            trim_start(v@.subrange(lo as int, hi as int)) == trim_start(
                v@.subrange(a as int, hi as int),
            ),
        decreases hi - a,
    {
        assert(v@.subrange(a as int, hi as int).drop_first() =~= v@.subrange(
            a + 1,
            hi as int,
        ));
        a = a + 1;
    }
    let mut b = hi;
    while b > a && is_ws_char(v[b - 1])
        invariant
            lo <= a <= b <= hi <= v@.len(),
            trim(v@.subrange(lo as int, hi as int)) == trim_end(v@.subrange(a as int, b as int)),
        decreases b - a,
    {
        assert(v@.subrange(a as int, b as int).drop_last() =~= v@.subrange(
            a as int,
            b - 1,
        ));
        b = b - 1;
    }
    (a, b)
}

/// Whether `v[i..hi]` begins with `p`.
pub fn matches_here(v: &Vec<char>, i: usize, hi: usize, p: &str) -> (r: bool)
    requires
        i <= hi <= v@.len(),
    ensures
        r == starts_with(v@.subrange(i as int, hi as int), p@),
{
    let n = p.unicode_len();
    if n > hi - i {
        return false;
    }
    let mut j: usize = 0;
    while j < n
        invariant
            n == p@.len(),
            i + n <= hi <= v@.len(),
            j <= n,
            forall|k: int| 0 <= k < j ==> v@[i + k] == p@[k],
        decreases n - j,
    {
        if v[i + j] != p.get_char(j) {
            assert(v@.subrange(i as int, hi as int).subrange(0, n as int)[j as int] != p@[j as int]);
            return false;
        }
        j = j + 1;
    }
    assert(v@.subrange(i as int, hi as int).subrange(0, n as int) =~= p@);
    true
}


/// The first position at or after `lo` where `p` occurs inside `v[lo..hi]`.
pub fn find(v: &Vec<char>, lo: usize, hi: usize, p: &str) -> (r: Option<usize>)
    requires
        lo <= hi <= v@.len(),
        p@.len() > 0,
    ensures
        match r {
            Some(i) => lo <= i < hi && i - lo == first_match(v@.subrange(lo as int, hi as int), p@),
            None => first_match(v@.subrange(lo as int, hi as int), p@) == -1,
        },
{
    let ghost s = v@.subrange(lo as int, hi as int);
    let mut i = lo;
    while i < hi
        invariant
            lo <= i <= hi <= v@.len(),
            s == v@.subrange(lo as int, hi as int),
            forall|j: int| 0 <= j < i - lo ==> !#[trigger] matches_at(s, p@, j),
        decreases hi - i,
    {
        let m = matches_here(v, i, hi, p);
        proof {
            lemma_shifted_match(v@, lo as int, hi as int, i as int, p@);
        }
        if m {
            proof {
                lemma_first_match_is(s, p@, i - lo);
            }
            return Some(i);
        }
        i = i + 1;
    }
    proof {
        lemma_first_match_none(s, p@);
    }
    None
}

/// The last position inside `v[lo..hi]` where `p` occurs.
pub fn rfind(v: &Vec<char>, lo: usize, hi: usize, p: &str) -> (r: Option<usize>)
    requires
        lo <= hi <= v@.len(),
        p@.len() > 0,
    ensures
        match r {
            Some(i) => lo <= i < hi && i - lo == last_match(v@.subrange(lo as int, hi as int), p@),
            None => last_match(v@.subrange(lo as int, hi as int), p@) == -1,
        },
{
    let ghost s = v@.subrange(lo as int, hi as int);
    let mut i = hi;
    loop
        invariant
            lo <= i <= hi <= v@.len(),
            s == v@.subrange(lo as int, hi as int),
            p@.len() > 0,
            forall|j: int| i - lo < j ==> !#[trigger] matches_at(s, p@, j),
        decreases i - lo,
    {
        let m = matches_here(v, i, hi, p);
        proof {
            lemma_shifted_match(v@, lo as int, hi as int, i as int, p@);
        }
        if m {
            proof {
                lemma_last_match_is(s, p@, i - lo);
            }
            return Some(i);
        }
        if i == lo {
            proof {
                assert forall|j: int| !#[trigger] matches_at(s, p@, j) by {
                    if j == 0 {
                    }
                }
                lemma_last_match_none(s, p@);
            }
            return None;
        }
        i = i - 1;
    }
}

/// A match inside the subrange `v[lo..hi]` at relative index `i - lo` is a
/// match at the start of `v[i..hi]`.
pub proof fn lemma_shifted_match(v: Seq<char>, lo: int, hi: int, i: int, p: Seq<char>)
    requires
        0 <= lo <= i <= hi <= v.len(),
    ensures
        matches_at(v.subrange(lo, hi), p, i - lo) == starts_with(v.subrange(i, hi), p),
{
    if i + p.len() <= hi {
        assert(v.subrange(lo, hi).subrange(i - lo, i - lo + p.len()) =~= v.subrange(i, hi).subrange(
            0,
            p.len() as int,
        ));
    }
}


/// The first index at or after `lo` in `v[lo..hi]` that is not whitespace.
pub fn skip_ws(v: &Vec<char>, lo: usize, hi: usize) -> (r: usize)
    requires
        lo <= hi <= v@.len(),
    ensures
        lo <= r <= hi,
        v@.subrange(r as int, hi as int) == trim_start(v@.subrange(lo as int, hi as int)),
{
    let mut a = lo;
    while a < hi && is_ws_char(v[a])
        invariant
            lo <= a <= hi <= v@.len(),
            trim_start(v@.subrange(lo as int, hi as int)) == trim_start(
                v@.subrange(a as int, hi as int),
            ),
        decreases hi - a,
    {
        assert(v@.subrange(a as int, hi as int).drop_first() =~= v@.subrange(
            a + 1,
            hi as int,
        ));
        a = a + 1;
    }
    a
}

/// Whether `v[lo..hi]` spells exactly `p`.
pub fn range_eq(v: &Vec<char>, lo: usize, hi: usize, p: &str) -> (r: bool)
    requires
        lo <= hi <= v@.len(),
    ensures
        r == (v@.subrange(lo as int, hi as int) == p@),
{
    let n = p.unicode_len();
    if n != hi - lo {
        return false;
    }
    let m = matches_here(v, lo, hi, p);
    assert(v@.subrange(lo as int, hi as int).subrange(0, n as int) =~= v@.subrange(
        lo as int,
        hi as int,
    ));
    m
}


pub proof fn lemma_trim_start_idem(s: Seq<char>)
    ensures
        trim_start(trim_start(s)) == trim_start(s),
        trim_start(s).len() > 0 ==> !is_ws(trim_start(s)[0]),
    decreases s.len(),
{
    if s.len() > 0 && is_ws(s[0]) {
        lemma_trim_start_idem(s.drop_first());
    }
}

pub proof fn lemma_first_match_found(s: Seq<char>, p: Seq<char>)
    ensures
        first_match(s, p) >= -1,
        first_match(s, p) >= 0 ==> is_first_match(s, p, first_match(s, p)),
{
}

pub proof fn lemma_last_match_found(s: Seq<char>, p: Seq<char>)
    ensures
        last_match(s, p) >= -1,
        last_match(s, p) >= 0 ==> is_last_match(s, p, last_match(s, p)),
{
}

/// The pieces of `s` between occurrences of `sep`, in order.
pub open spec fn split_on(s: Seq<char>, sep: Seq<char>) -> Seq<Seq<char>>
    decreases s.len(),
{
    let k = first_match(s, sep);
    if k < 0 || sep.len() == 0 {
        seq![s]
    } else {
        proof {
            lemma_first_match_found(s, sep);
        }
        seq![s.subrange(0, k)] + split_on(s.subrange(k + sep.len(), s.len() as int), sep)
    }
}

pub open spec fn is_ident_char(c: char) -> bool {
    ('a' <= c && c <= 'z') || ('A' <= c && c <= 'Z') || ('0' <= c && c <= '9') || c == '_'
}

pub open spec fn is_ident(s: Seq<char>) -> bool {
    s.len() > 0 && forall|i: int| 0 <= i < s.len() ==> is_ident_char(#[trigger] s[i])
}

/// `items` separated by `sep`.
pub open spec fn join(items: Seq<Seq<char>>, sep: Seq<char>) -> Seq<char>
    decreases items.len(),
{
    if items.len() == 0 {
        Seq::empty()
    } else if items.len() == 1 {
        items[0]
    } else {
        join(items.drop_last(), sep) + sep + items.last()
    }
}

/// Every match has a first match at or before it.
pub proof fn lemma_first_match_at_most(s: Seq<char>, p: Seq<char>, j: int)
    requires
        matches_at(s, p, j),
    ensures
        0 <= first_match(s, p) <= j,
    decreases j,
{
    if exists|k: int| 0 <= k < j && matches_at(s, p, k) {
        let k = choose|k: int| 0 <= k < j && matches_at(s, p, k);
        lemma_first_match_at_most(s, p, k);
    } else {
        lemma_first_match_is(s, p, j);
    }
}

/// A one-character pattern matches exactly where that character stands.
pub proof fn lemma_char_match(s: Seq<char>, p: Seq<char>, i: int)
    requires
        p.len() == 1,
    ensures
        matches_at(s, p, i) <==> (0 <= i < s.len() && s[i] == p[0]),
{
    if 0 <= i < s.len() && s[i] == p[0] {
        assert(s.subrange(i, i + 1) =~= p);
    }
    if matches_at(s, p, i) {
        assert(s.subrange(i, i + 1)[0] == s[i]);
    }
}

/// Splitting `x`, a one-character separator and a separator-free `y` gives
/// the pieces of `x` followed by `y`.
pub proof fn lemma_split_push(x: Seq<char>, sep: Seq<char>, y: Seq<char>)
    requires
        sep.len() == 1,
        forall|i: int| 0 <= i < y.len() ==> y[i] != sep[0],
    ensures
        split_on(x + sep + y, sep) == split_on(x, sep).push(y),
    decreases x.len(),
{
    let s = x + sep + y;
    let k = first_match(x, sep);
    lemma_first_match_found(x, sep);
    lemma_first_match_found(y, sep);
    assert forall|j: int| !#[trigger] matches_at(y, sep, j) by {
        lemma_char_match(y, sep, j);
    }
    lemma_first_match_none(y, sep);
    assert(split_on(y, sep) == seq![y]);
    if k < 0 {
        assert forall|j: int| 0 <= j < x.len() implies x[j] != sep[0] by {
            lemma_char_match(x, sep, j);
            if x[j] == sep[0] {
                lemma_first_match_at_most(x, sep, j);
            }
        }
        assert forall|j: int| 0 <= j < x.len() implies !#[trigger] matches_at(s, sep, j) by {
            lemma_char_match(s, sep, j);
            assert(s[j] == x[j]);
        }
        lemma_char_match(s, sep, x.len() as int);
        assert(s[x.len() as int] == sep[0]);
        lemma_first_match_is(s, sep, x.len() as int);
        assert(s.subrange(0, x.len() as int) =~= x);
        assert(s.subrange(x.len() as int + 1, s.len() as int) =~= y);
        assert forall|j: int| !#[trigger] matches_at(x, sep, j) by {
            lemma_char_match(x, sep, j);
        }
        lemma_first_match_none(x, sep);
        assert(split_on(x, sep) == seq![x]);
        assert(split_on(s, sep) =~= split_on(x, sep).push(y));
    } else {
        lemma_char_match(x, sep, k);
        lemma_char_match(s, sep, k);
        assert forall|j: int| 0 <= j < k implies !#[trigger] matches_at(s, sep, j) by {
            lemma_char_match(s, sep, j);
            lemma_char_match(x, sep, j);
        }
        lemma_first_match_is(s, sep, k);
        let xr = x.subrange(k + 1, x.len() as int);
        assert(s.subrange(k + 1, s.len() as int) =~= xr + sep + y);
        assert(s.subrange(0, k) =~= x.subrange(0, k));
        lemma_split_push(xr, sep, y);
        assert(split_on(s, sep) =~= split_on(x, sep).push(y));
    }
}

} // verus!
