//! Translation of a binding-language type spelling into the native (C/C++)
//! spelling of the same type.
use vstd::prelude::*;
use crate::text::{
    chars_of, is_ident, is_ident_char, is_ws, is_ws_char, lemma_trim_start_idem, lemma_trim_start_len, matches_here, range_eq, skip_ws, starts_with,
    substring, trim, trim_bounds, trim_end, trim_start,
};

verus! {

/// Whether `c` opens a pointer or reference spelling.
pub open spec fn is_sigil(c: char) -> bool {
    c == '&' || c == '*'
}

/// `s` with every lifetime annotation removed: a lifetime runs from an
/// apostrophe up to the next whitespace. `in_lt` says whether the text
/// before `s` left a lifetime open.
pub open spec fn strip_lifetimes(s: Seq<char>, in_lt: bool) -> Seq<char>
    decreases s.len(),
{
    if s.len() == 0 {
        s
    } else if s[0] == '\'' || (in_lt && !is_ws(s[0])) {
        strip_lifetimes(s.drop_first(), true)
    } else {
        seq![s[0]] + strip_lifetimes(s.drop_first(), false)
    }
}

/// Peels the pointer and reference sigils off `s`, outermost first. Each
/// level records whether it was marked `mut`; what is left, trimmed, is the
/// base type.
pub open spec fn peel(s: Seq<char>) -> (Seq<bool>, Seq<char>)
    decreases s.len(),
{
    let t = trim_start(s);
    if t.len() > 0 && is_sigil(t[0]) {
        let u = trim_start(t.drop_first());
        proof {
            lemma_trim_start_len(s);
            lemma_trim_start_len(t.drop_first());
        }
        if starts_with(u, "mut "@) {
            let r = peel(u.subrange("mut "@.len() as int, u.len() as int));
            (seq![true] + r.0, r.1)
        } else if starts_with(u, "const "@) {
            let r = peel(u.subrange("const "@.len() as int, u.len() as int));
            (seq![false] + r.0, r.1)
        } else {
            let r = peel(u);
            (seq![false] + r.0, r.1)
        }
    } else {
        (Seq::empty(), trim_end(t))
    }
}

/// Native spelling of a non-pointer type: a fixed table, identity elsewhere.
pub open spec fn native_base(b: Seq<char>) -> Seq<char> {
    if b == "c_void"@ {
        "void"@
    } else if b == "boolean"@ {
        "int"@
    } else if b == "u8"@ {
        "unsigned char"@
    } else if b == "c_int"@ {
        "int"@
    } else if b == "f32"@ {
        "float"@
    } else if b == "c_ulong"@ {
        "unsigned long"@
    } else if b == "c_uint"@ {
        "unsigned int"@
    } else if b == "usize"@ {
        "size_t"@
    } else if b == "JSAMPARRAY_MUT"@ {
        "JSAMPARRAY"@
    } else if b == "JSAMPIMAGE_MUT"@ {
        "JSAMPIMAGE"@
    } else {
        b
    }
}

/// The native token for one level of indirection.
pub open spec fn pointer_token(mutable: bool) -> Seq<char> {
    if mutable {
        "*"@
    } else {
        " const*"@
    }
}

/// Tokens for the levels `flags` (outermost first), written innermost first
/// after the base type.
pub open spec fn pointer_suffix(flags: Seq<bool>) -> Seq<char>
    decreases flags.len(),
{
    if flags.len() == 0 {
        Seq::empty()
    } else {
        pointer_suffix(flags.drop_first()) + pointer_token(flags[0])
    }
}

/// Native spelling of the binding-language type spelling `s`.
pub open spec fn native_type_of(s: Seq<char>) -> Seq<char> {
    let t = trim(s);
    if t.len() > 0 && is_sigil(t[0]) {
        let r = peel(strip_lifetimes(t, false));
        native_base(r.1) + pointer_suffix(r.0)
    } else {
        native_base(t)
    }
}

fn strip_lifetimes_exec(v: &Vec<char>, lo: usize, hi: usize) -> (r: Vec<char>)
    requires
        lo <= hi <= v@.len(),
    ensures
        r@ == strip_lifetimes(v@.subrange(lo as int, hi as int), false),
{
    let mut out: Vec<char> = Vec::new();
    let mut in_lt = false;
    let mut i = lo;
    while i < hi
        invariant
            lo <= i <= hi <= v@.len(),
            strip_lifetimes(v@.subrange(lo as int, hi as int), false) == out@ + strip_lifetimes(
                v@.subrange(i as int, hi as int),
                in_lt,
            ),
        decreases hi - i,
    {
        let ghost rest = v@.subrange(i as int, hi as int);
        assert(rest.drop_first() =~= v@.subrange(i + 1, hi as int));
        let c = v[i];
        if c == '\'' || (in_lt && !is_ws_char(c)) {
            in_lt = true;
        } else {
            out.push(c);
            in_lt = false;
            assert(out@ + strip_lifetimes(rest.drop_first(), false) =~= out@.drop_last() + (seq![c]
                + strip_lifetimes(rest.drop_first(), false)));
        }
        i = i + 1;
    }
    assert(v@.subrange(hi as int, hi as int).len() == 0);
    assert(out@ + Seq::<char>::empty() =~= out@);
    out
}

fn native_base_exec(v: &Vec<char>, lo: usize, hi: usize) -> (r: String)
    requires
        lo <= hi <= v@.len(),
    ensures
        r@ == native_base(v@.subrange(lo as int, hi as int)),
{
    if range_eq(v, lo, hi, "c_void") {
        String::from_str("void")
    } else if range_eq(v, lo, hi, "boolean") {
        String::from_str("int")
    } else if range_eq(v, lo, hi, "u8") {
        String::from_str("unsigned char")
    } else if range_eq(v, lo, hi, "c_int") {
        String::from_str("int")
    } else if range_eq(v, lo, hi, "f32") {
        String::from_str("float")
    } else if range_eq(v, lo, hi, "c_ulong") {
        String::from_str("unsigned long")
    } else if range_eq(v, lo, hi, "c_uint") {
        String::from_str("unsigned int")
    } else if range_eq(v, lo, hi, "usize") {
        String::from_str("size_t")
    } else if range_eq(v, lo, hi, "JSAMPARRAY_MUT") {
        String::from_str("JSAMPARRAY")
    } else if range_eq(v, lo, hi, "JSAMPIMAGE_MUT") {
        String::from_str("JSAMPIMAGE")
    } else {
        substring(v, lo, hi)
    }
}

/// Native (C/C++) spelling of the binding-language type spelling `spelling`.
///
/// Pointers and references become `*` (mutable) or ` const*` (immutable)
/// tokens, innermost level first, after the mapped base type; lifetimes are
/// dropped. Names outside the fixed table pass through unchanged.
pub fn native_type(spelling: &str) -> (r: String)
    ensures
        r@ == native_type_of(spelling@),
{
    let v = chars_of(spelling);
    let (a, b) = trim_bounds(&v, 0, v.len());
    assert(v@.subrange(0, v@.len() as int) =~= v@);
    if a < b && (v[a] == '&' || v[a] == '*') {
        let w = strip_lifetimes_exec(&v, a, b);
        let (flags, base_lo, base_hi) = peel_exec(&w);
        let mut out = native_base_exec(&w, base_lo, base_hi);
        let mut i = flags.len();
        while i > 0
            invariant
                i <= flags@.len(),
                out@ == native_base(w@.subrange(base_lo as int, base_hi as int)) + pointer_suffix(
                    flags@.subrange(i as int, flags@.len() as int),
                ),
            decreases i,
        {
            let ghost prev = flags@.subrange(i as int, flags@.len() as int);
            assert(flags@.subrange(i - 1, flags@.len() as int).drop_first() =~= prev);
            if flags[i - 1] {
                out.append("*");
            } else {
                out.append(" const*");
            }
            i = i - 1;
            assert(out@ =~= native_base(w@.subrange(base_lo as int, base_hi as int))
                + pointer_suffix(flags@.subrange(i as int, flags@.len() as int)));
        }
        assert(flags@.subrange(0, flags@.len() as int) =~= flags@);
        out
    } else {
        native_base_exec(&v, a, b)
    }
}

/// Splits `w` into its indirection levels and the bounds of its base type.
fn peel_exec(w: &Vec<char>) -> (r: (Vec<bool>, usize, usize))
    ensures
        r.1 <= r.2 <= w@.len(),
        peel(w@) == (r.0@, w@.subrange(r.1 as int, r.2 as int)),
{
    let n = w.len();
    let mut flags: Vec<bool> = Vec::new();
    let mut pos: usize = 0;
    assert(w@.subrange(0, n as int) =~= w@);
    loop
        invariant
            n == w@.len(),
            pos <= n,
            peel(w@) == (flags@ + peel(w@.subrange(pos as int, n as int)).0, peel(
                w@.subrange(pos as int, n as int),
            ).1),
        decreases n - pos,
    {
        let ghost s = w@.subrange(pos as int, n as int);
        let t = skip_ws(w, pos, n);
        if t < n && (w[t] == '&' || w[t] == '*') {
            let u = skip_ws(w, t + 1, n);
            assert(w@.subrange(t as int, n as int).drop_first() =~= w@.subrange(t + 1, n as int));
            let ghost rest_flags = flags@;
            if matches_here(w, u, n, "mut ") {
                proof {
                    reveal_strlit("mut ");
                }
                assert(w@.subrange(u as int, n as int).subrange(4, n - u) =~= w@.subrange(
                    u + 4,
                    n as int,
                ));
                flags.push(true);
                pos = u + 4;
            } else if matches_here(w, u, n, "const ") {
                proof {
                    reveal_strlit("const ");
                }
                assert(w@.subrange(u as int, n as int).subrange(6, n - u) =~= w@.subrange(
                    u + 6,
                    n as int,
                ));
                flags.push(false);
                pos = u + 6;
            } else {
                flags.push(false);
                pos = u;
            }
            let ghost r = peel(w@.subrange(pos as int, n as int));
            assert(flags@ + r.0 =~= rest_flags + (seq![flags@.last()] + r.0));
        } else {
            let (a, b) = trim_bounds(w, t, n);
            proof {
                lemma_trim_start_idem(s);
            }
            assert(flags@ + Seq::<bool>::empty() =~= flags@);
            return (flags, a, b);
        }
    }
}

/// Binding-language spelling of one indirection level: a reference (`&`,
/// `&mut `) or a raw pointer (`*const `, `*mut `).
pub open spec fn level_spelling(reference: bool, mutable: bool) -> Seq<char> {
    if reference {
        if mutable {
            "&mut "@
        } else {
            "&"@
        }
    } else if mutable {
        "*mut "@
    } else {
        "*const "@
    }
}

/// The spelling of `base` behind the indirection `levels`, outermost first;
/// each level is (reference, mutable).
pub open spec fn pointer_spelling(levels: Seq<(bool, bool)>, base: Seq<char>) -> Seq<char>
    decreases levels.len(),
{
    if levels.len() == 0 {
        base
    } else {
        level_spelling(levels[0].0, levels[0].1) + pointer_spelling(levels.drop_first(), base)
    }
}

pub open spec fn count_char(s: Seq<char>, c: char) -> nat
    decreases s.len(),
{
    if s.len() == 0 {
        0
    } else {
        (if s[0] == c {
            1nat
        } else {
            0nat
        }) + count_char(s.drop_first(), c)
    }
}

proof fn lemma_count_concat(a: Seq<char>, b: Seq<char>, c: char)
    ensures
        count_char(a + b, c) == count_char(a, c) + count_char(b, c),
    decreases a.len(),
{
    if a.len() > 0 {
        assert((a + b).drop_first() =~= a.drop_first() + b);
        lemma_count_concat(a.drop_first(), b, c);
    } else {
        assert(a + b =~= b);
    }
}

proof fn lemma_suffix_stars(flags: Seq<bool>)
    ensures
        count_char(pointer_suffix(flags), '*') == flags.len(),
    decreases flags.len(),
{
    if flags.len() > 0 {
        lemma_suffix_stars(flags.drop_first());
        lemma_count_concat(pointer_suffix(flags.drop_first()), pointer_token(flags[0]), '*');
        reveal_strlit("*");
        reveal_strlit(" const*");
        reveal_with_fuel(count_char, 8);
    }
}

proof fn lemma_no_quote_strip(s: Seq<char>)
    requires
        forall|i: int| 0 <= i < s.len() ==> #[trigger] s[i] != '\'',
    ensures
        strip_lifetimes(s, false) == s,
    decreases s.len(),
{
    if s.len() > 0 {
        assert(s[0] != '\'');
        assert forall|i: int| 0 <= i < s.drop_first().len() implies #[trigger] s.drop_first()[i]
            != '\'' by {
            assert(s.drop_first()[i] == s[i + 1]);
        }
        lemma_no_quote_strip(s.drop_first());
        assert(seq![s[0]] + s.drop_first() =~= s);
    }
}

proof fn lemma_spelling_shape(levels: Seq<(bool, bool)>, base: Seq<char>)
    requires
        is_ident(base),
    ensures
        pointer_spelling(levels, base).len() > 0,
        pointer_spelling(levels, base).last() == base.last(),
        forall|i: int|
            0 <= i < pointer_spelling(levels, base).len() ==> #[trigger] pointer_spelling(
                levels,
                base,
            )[i] != '\'',
        levels.len() > 0 ==> is_sigil(pointer_spelling(levels, base)[0]),
    decreases levels.len(),
{
    reveal_strlit("&mut ");
    reveal_strlit("&");
    reveal_strlit("*mut ");
    reveal_strlit("*const ");
    if levels.len() > 0 {
        lemma_spelling_shape(levels.drop_first(), base);
        let head = level_spelling(levels[0].0, levels[0].1);
        let rest = pointer_spelling(levels.drop_first(), base);
        assert forall|i: int|
            0 <= i < pointer_spelling(levels, base).len() implies #[trigger] pointer_spelling(
            levels,
            base,
        )[i] != '\'' by {
            if i >= head.len() {
                assert(pointer_spelling(levels, base)[i] == rest[i - head.len()]);
            }
        }
    } else {
        assert(is_ident_char(base[0]));
        assert(is_ident_char(base[base.len() - 1]));
        assert forall|i: int| 0 <= i < base.len() implies #[trigger] base[i] != '\'' by {
            assert(is_ident_char(base[i]));
        }
    }
}

proof fn lemma_peel_spelling(levels: Seq<(bool, bool)>, base: Seq<char>)
    requires
        is_ident(base),
    ensures
        peel(pointer_spelling(levels, base)) == (levels.map_values(|l: (bool, bool)| l.1), base),
    decreases levels.len(),
{
    reveal_strlit("&mut ");
    reveal_strlit("&");
    reveal_strlit("*mut ");
    reveal_strlit("*const ");
    reveal_strlit("mut ");
    reveal_strlit("const ");
    let s = pointer_spelling(levels, base);
    lemma_spelling_shape(levels, base);
    if levels.len() == 0 {
        assert(is_ident_char(base[0]));
        assert(is_ident_char(base[base.len() - 1]));
        assert(trim_end(base) == base);
        assert(levels.map_values(|l: (bool, bool)| l.1) =~= Seq::<bool>::empty());
    } else {
        let rest = pointer_spelling(levels.drop_first(), base);
        let head = level_spelling(levels[0].0, levels[0].1);
        lemma_spelling_shape(levels.drop_first(), base);
        lemma_peel_spelling(levels.drop_first(), base);
        assert(trim_start(s) == s);
        // The first character of `rest` is never whitespace.
        assert(!is_ws(rest[0])) by {
            if levels.drop_first().len() == 0 {
                assert(is_ident_char(base[0]));
            }
        }
        assert(trim_start(rest) == rest);
        let u = trim_start(s.drop_first());
        if levels[0].1 {
            assert(s.drop_first() =~= "mut "@ + rest);
            assert(!is_ws(s.drop_first()[0]));
            assert(u == s.drop_first());
            assert(starts_with(u, "mut "@)) by {
                assert(u.subrange(0, 4) =~= "mut "@);
            }
            assert(u.subrange(4, u.len() as int) =~= rest);
        } else if levels[0].0 {
            assert(s.drop_first() =~= rest);
            assert(!starts_with(u, "mut "@)) by {
                if starts_with(u, "mut "@) {
                    assert(u.subrange(0, 4)[3] == ' ');
                    if levels.drop_first().len() == 0 {
                        assert(is_ident_char(base[3]));
                    } else {
                        assert(is_sigil(rest[0]));
                        assert(u.subrange(0, 4)[0] == 'm');
                    }
                }
            }
            assert(!starts_with(u, "const "@)) by {
                if starts_with(u, "const "@) {
                    assert(u.subrange(0, 6)[5] == ' ');
                    if levels.drop_first().len() == 0 {
                        assert(is_ident_char(base[5]));
                    } else {
                        assert(is_sigil(rest[0]));
                        assert(u.subrange(0, 6)[0] == 'c');
                    }
                }
            }
        } else {
            assert(s.drop_first() =~= "const "@ + rest);
            assert(!is_ws(s.drop_first()[0]));
            assert(u == s.drop_first());
            assert(!starts_with(u, "mut "@)) by {
                if starts_with(u, "mut "@) {
                    assert(u.subrange(0, 4)[0] == 'm');
                }
            }
            assert(starts_with(u, "const "@)) by {
                assert(u.subrange(0, 6) =~= "const "@);
            }
            assert(u.subrange(6, u.len() as int) =~= rest);
        }
        assert(levels.map_values(|l: (bool, bool)| l.1) =~= seq![levels[0].1]
            + levels.drop_first().map_values(|l: (bool, bool)| l.1));
    }
}

/// A type written behind one or more levels of references or raw pointers
/// maps to the mapped base type followed by one `*` per level, innermost
/// level first, each marked ` const` unless its level was `mut`.
pub proof fn lemma_pointer_mapping(levels: Seq<(bool, bool)>, base: Seq<char>)
    requires
        levels.len() > 0,
        is_ident(base),
    ensures
        native_type_of(pointer_spelling(levels, base)) == native_base(base) + pointer_suffix(
            levels.map_values(|l: (bool, bool)| l.1),
        ),
        count_char(pointer_suffix(levels.map_values(|l: (bool, bool)| l.1)), '*') == levels.len(),
{
    let s = pointer_spelling(levels, base);
    lemma_spelling_shape(levels, base);
    assert(trim_start(s) == s);
    assert(trim_end(s) == s);
    lemma_no_quote_strip(s);
    lemma_peel_spelling(levels, base);
    lemma_suffix_stars(levels.map_values(|l: (bool, bool)| l.1));
}

} // verus!
