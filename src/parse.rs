//! Parser for a block of native function declarations:
//! `[doc lines] [attribute lines] [pub] fn name[<lifetime>](arg: Type, ...) [-> Ret];`
//! repeated inside one outer pair of braces.
//!
//! The grammar is deliberately restricted: argument types hold no
//! parentheses and no commas, so the argument list ends at the first `)`
//! after the first `(` and splits on every `,`. A `(` inside the argument
//! list, or a missing `)`, is rejected as unbalanced parentheses.
use vstd::prelude::*;
use crate::decl::{Argument, DeclModel, Declaration, decls_view, strings_view};
use crate::text::{
    chars_of, find, first_match, is_blank, is_ident, is_ident_char, is_ws, join, last_match,
    lemma_char_match, lemma_first_match_found, lemma_first_match_is, lemma_first_match_none,
    lemma_last_match_found, lemma_split_push, matches_at, matches_here, range_eq, rfind, split_on,
    starts_with, substring, trim, trim_bounds,
};

verus! {

/// Why a block of declarations was rejected.
#[derive(Debug, Clone, Copy, PartialEq, Eq, Structural)]
pub enum ParseError {
    /// No `{` before a closing `}` encloses the declarations.
    UnbalancedBraces,
    /// A declaration lacks the `fn` keyword.
    MissingFnKeyword,
    /// Nothing stands between `fn` and the generic or argument list.
    MissingName,
    /// A `<` after the name has no `>` before the argument list.
    UnclosedGenerics,
    /// A declaration lacks `(` or the `)` that closes its arguments, or
    /// holds a `(` inside its argument list.
    UnbalancedParens,
    /// An argument has no `:` between its name and its type.
    MissingColon,
    /// Two declarations share one name.
    DuplicateName,
}

/// The arguments written in `pieces` (the argument list split on commas);
/// blank pieces, such as the one after a trailing comma, are skipped.
pub open spec fn parse_args(pieces: Seq<Seq<char>>) -> Result<Seq<(Seq<char>, Seq<char>)>, ParseError>
    decreases pieces.len(),
{
    if pieces.len() == 0 {
        Ok(Seq::empty())
    } else {
        match parse_args(pieces.drop_last()) {
            Err(e) => Err(e),
            Ok(args) => {
                let pc = pieces.last();
                let c = first_match(pc, ":"@);
                if is_blank(pc) {
                    Ok(args)
                } else if c < 0 {
                    Err(ParseError::MissingColon)
                } else {
                    Ok(args.push((trim(pc.subrange(0, c)), trim(pc.subrange(c + 1, pc.len() as int)))))
                }
            },
        }
    }
}

/// The declaration spelled by `sig` (its lines joined without newlines),
/// carrying the doc and attribute lines found above it.
pub open spec fn parse_signature(sig: Seq<char>, docs: Seq<Seq<char>>, attrs: Seq<Seq<char>>) -> Result<DeclModel, ParseError> {
    let k = first_match(sig, "fn "@);
    if k < 0 {
        Err(ParseError::MissingFnKeyword)
    } else {
        let is_public = trim(sig.subrange(0, k)) == "pub"@;
        let r = sig.subrange(k + "fn "@.len(), sig.len() as int);
        let p = first_match(r, "("@);
        if p < 0 {
            Err(ParseError::UnbalancedParens)
        } else {
            let head = r.subrange(0, p);
            let lt = first_match(head, "<"@);
            let g = first_match(head.subrange(lt + 1, p), ">"@);
            if lt >= 0 && g < 0 {
                Err(ParseError::UnclosedGenerics)
            } else {
                let name = if lt < 0 {
                    trim(head)
                } else {
                    trim(head.subrange(0, lt))
                };
                let lifetime = if lt < 0 {
                    None
                } else {
                    Some(trim(head.subrange(lt + 1, lt + 1 + g)))
                };
                let after = r.subrange(p + 1, r.len() as int);
                let q = first_match(after, ")"@);
                if name.len() == 0 {
                    Err(ParseError::MissingName)
                } else if q < 0 || first_match(after.subrange(0, q), "("@) >= 0 {
                    Err(ParseError::UnbalancedParens)
                } else {
                    match parse_args(split_on(after.subrange(0, q), ","@)) {
                        Err(e) => Err(e),
                        Ok(args) => {
                            let tail = after.subrange(q + 1, after.len() as int);
                            let a = last_match(tail, "->"@);
                            let ret = if a < 0 {
                                None
                            } else {
                                Some(trim(tail.subrange(a + "->"@.len(), tail.len() as int)))
                            };
                            Ok(
                                DeclModel {
                                    name,
                                    is_public,
                                    docs,
                                    attrs,
                                    args,
                                    ret,
                                    lifetime,
                                },
                            )
                        },
                    }
                }
            }
        }
    }
}

fn parse_args_exec(v: &Vec<char>, lo: usize, hi: usize) -> (r: Result<Vec<Argument>, ParseError>)
    requires
        lo <= hi <= v@.len(),
    ensures
        match r {
            Ok(args) => parse_args(split_on(v@.subrange(lo as int, hi as int), ","@)) == Ok::<
                Seq<(Seq<char>, Seq<char>)>,
                ParseError,
            >(args@.map_values(|a: Argument| a@)),
            Err(e) => parse_args(split_on(v@.subrange(lo as int, hi as int), ","@)) == Err::<
                Seq<(Seq<char>, Seq<char>)>,
                ParseError,
            >(e),
        },
{
    let mut args: Vec<Argument> = Vec::new();
    let ghost mut done: Seq<Seq<char>> = Seq::empty();
    let mut pos = lo;
    assert(args@.map_values(|a: Argument| a@) =~= Seq::<(Seq<char>, Seq<char>)>::empty());
    assert(done + split_on(v@.subrange(lo as int, hi as int), ","@) =~= split_on(
        v@.subrange(lo as int, hi as int),
        ","@,
    ));
    loop
        invariant
            lo <= pos <= hi <= v@.len(),
            split_on(v@.subrange(lo as int, hi as int), ","@) == done + split_on(
                v@.subrange(pos as int, hi as int),
                ","@,
            ),
            parse_args(done) == Ok::<Seq<(Seq<char>, Seq<char>)>, ParseError>(
                args@.map_values(|a: Argument| a@),
            ),
        decreases hi - pos,
    {
        proof {
            reveal_strlit(",");
            reveal_strlit(":");
        }
        let ghost rest = v@.subrange(pos as int, hi as int);
        let found = find(v, pos, hi, ",");
        let end = match found {
            Some(k) => k,
            None => hi,
        };
        proof {
            lemma_first_match_found(rest, ","@);
            let piece = v@.subrange(pos as int, end as int);
            match found {
                Some(k) => {
                    assert(rest.subrange(0, k - pos) =~= piece);
                    assert(rest.subrange(k - pos + 1, rest.len() as int) =~= v@.subrange(
                        k + 1,
                        hi as int,
                    ));
                    assert(split_on(rest, ","@) == seq![piece] + split_on(
                        v@.subrange(k + 1, hi as int),
                        ","@,
                    ));
                },
                None => {
                    assert(rest =~= piece);
                    assert(split_on(rest, ","@) == seq![piece]);
                },
            }
            assert(done.push(piece).drop_last() =~= done);
        }
        let ghost piece = v@.subrange(pos as int, end as int);
        let (a, b) = trim_bounds(v, pos, end);
        if a < b {
            let colon = find(v, pos, end, ":");
            match colon {
                None => {
                    proof {
                        assert(split_on(rest, ","@)[0] == piece);
                        assert(split_on(v@.subrange(lo as int, hi as int), ","@).subrange(
                            0,
                            done.len() as int + 1,
                        ) =~= done.push(piece));
                        done = done.push(piece);
                        lemma_parse_args_error_persists(
                            done,
                            split_on(v@.subrange(lo as int, hi as int), ","@),
                            ParseError::MissingColon,
                        );
                    }
                    return Err(ParseError::MissingColon);
                },
                Some(c) => {
                    let (na, nb) = trim_bounds(v, pos, c);
                    let (ta, tb) = trim_bounds(v, c + 1, end);
                    proof {
                        assert(piece.subrange(0, c - pos) =~= v@.subrange(pos as int, c as int));
                        assert(piece.subrange(c - pos + 1, piece.len() as int) =~= v@.subrange(
                            c + 1,
                            end as int,
                        ));
                    }
                    let arg = Argument { name: substring(v, na, nb), ty: substring(v, ta, tb) };
                    let ghost old_args = args@;
                    args.push(arg);
                    proof {
                        assert(args@.map_values(|a: Argument| a@) =~= old_args.map_values(
                            |a: Argument| a@,
                        ).push(arg@));
                    }
                },
            }
        }
        proof {
            done = done.push(piece);
        }
        match found {
            Some(k) => {
                pos = k + 1;
            },
            None => {
                proof {
                    assert(done + Seq::<Seq<char>>::empty() =~= done);
                    assert(split_on(v@.subrange(lo as int, hi as int), ","@) =~= done);
                }
                return Ok(args);
            },
        }
    }
}

/// Once a prefix of the pieces fails, every longer run of them fails alike.
proof fn lemma_parse_args_error_persists(prefix: Seq<Seq<char>>, all: Seq<Seq<char>>, e: ParseError)
    requires
        prefix.len() <= all.len(),
        all.subrange(0, prefix.len() as int) == prefix,
        parse_args(prefix) == Err::<Seq<(Seq<char>, Seq<char>)>, ParseError>(e),
    ensures
        parse_args(all) == Err::<Seq<(Seq<char>, Seq<char>)>, ParseError>(e),
    decreases all.len(),
{
    if all.len() > prefix.len() {
        assert(all.drop_last().subrange(0, prefix.len() as int) =~= prefix);
        lemma_parse_args_error_persists(prefix, all.drop_last(), e);
    } else {
        assert(all.subrange(0, prefix.len() as int) =~= all);
    }
}

/// Parses the signature text `sig` of one declaration, whose doc and
/// attribute lines were already collected.
#[verifier::rlimit(40)]
fn parse_signature_exec(sig: &Vec<char>, docs: Vec<String>, attrs: Vec<String>) -> (r: Result<
    Declaration,
    ParseError,
>)
    ensures
        match r {
            Ok(d) => parse_signature(sig@, strings_view(docs@), strings_view(attrs@)) == Ok::<
                DeclModel,
                ParseError,
            >(d@),
            Err(e) => parse_signature(sig@, strings_view(docs@), strings_view(attrs@)) == Err::<
                DeclModel,
                ParseError,
            >(e),
        },
{
    proof {
        reveal_strlit("fn ");
        reveal_strlit("(");
        reveal_strlit("<");
        reveal_strlit(">");
        reveal_strlit(")");
        reveal_strlit("->");
    }
    let n = sig.len();
    let ghost s = sig@;
    assert(sig@.subrange(0, n as int) =~= s);
    let k = match find(sig, 0, n, "fn ") {
        None => return Err(ParseError::MissingFnKeyword),
        Some(k) => k,
    };
    proof {
        lemma_first_match_found(s, "fn "@);
    }
    let (pa, pb) = trim_bounds(sig, 0, k);
    let is_public = range_eq(sig, pa, pb, "pub");
    let rlo = k + 3;
    let ghost r = s.subrange(rlo as int, n as int);
    let pabs = match find(sig, rlo, n, "(") {
        None => return Err(ParseError::UnbalancedParens),
        Some(p) => p,
    };
    let ghost p = pabs - rlo;
    proof {
        lemma_first_match_found(r, "("@);
    }
    let ghost head = r.subrange(0, p);
    assert(head =~= s.subrange(rlo as int, pabs as int));
    let lt = find(sig, rlo, pabs, "<");
    let mut lifetime: Option<String> = None;
    let mut name_hi = pabs;
    match lt {
        Some(ltabs) => {
            assert(head.subrange(ltabs - rlo + 1, p) =~= s.subrange(ltabs + 1, pabs as int));
            match find(sig, ltabs + 1, pabs, ">") {
                None => return Err(ParseError::UnclosedGenerics),
                Some(gabs) => {
                    let (la, lb) = trim_bounds(sig, ltabs + 1, gabs);
                    assert(head.subrange(ltabs - rlo + 1, ltabs - rlo + 1 + (gabs - ltabs - 1))
                        =~= s.subrange(ltabs + 1, gabs as int));
                    lifetime = Some(substring(sig, la, lb));
                },
            }
            assert(head.subrange(0, ltabs - rlo) =~= s.subrange(rlo as int, ltabs as int));
            name_hi = ltabs;
        },
        None => {},
    }
    let (na, nb) = trim_bounds(sig, rlo, name_hi);
    if na == nb {
        return Err(ParseError::MissingName);
    }
    let ghost after = r.subrange(p + 1, r.len() as int);
    assert(after =~= s.subrange(pabs + 1, n as int));
    let qabs = match find(sig, pabs + 1, n, ")") {
        None => return Err(ParseError::UnbalancedParens),
        Some(q) => q,
    };
    let ghost q = qabs - (pabs + 1);
    proof {
        lemma_first_match_found(after, ")"@);
    }
    assert(after.subrange(0, q) =~= s.subrange(pabs + 1, qabs as int));
    if find(sig, pabs + 1, qabs, "(").is_some() {
        return Err(ParseError::UnbalancedParens);
    }
    let arguments = match parse_args_exec(sig, pabs + 1, qabs) {
        Err(e) => return Err(e),
        Ok(a) => a,
    };
    let ghost tail = after.subrange(q + 1, after.len() as int);
    assert(tail =~= s.subrange(qabs + 1, n as int));
    let return_type = match rfind(sig, qabs + 1, n, "->") {
        None => None,
        Some(aabs) => {
            proof {
                lemma_last_match_found(tail, "->"@);
            }
            let (ra, rb) = trim_bounds(sig, aabs + 2, n);
            assert(tail.subrange(aabs - (qabs + 1) + 2, tail.len() as int) =~= s.subrange(
                aabs + 2,
                n as int,
            ));
            Some(substring(sig, ra, rb))
        },
    };
    let d = Declaration {
        name: substring(sig, na, nb),
        is_public,
        doc_lines: docs,
        attribute_lines: attrs,
        arguments,
        return_type,
        lifetime,
    };
    Ok(d)
}

/// What the lines of one declaration have yielded so far: the phase
/// (0: doc lines, 1: attribute lines, 2: signature), the doc and attribute
/// lines, and the signature text with newlines removed.
pub struct Header {
    pub phase: int,
    pub docs: Seq<Seq<char>>,
    pub attrs: Seq<Seq<char>>,
    pub sig: Seq<char>,
}

/// Takes one more line of a declaration. Doc lines (`///`) come first, then
/// attribute lines (`#[`); blank lines before the signature are skipped; the
/// first line of any other kind starts the signature, which takes every line
/// after it.
pub open spec fn header_step(h: Header, line: Seq<char>) -> Header {
    let tl = trim(line);
    if h.phase >= 2 {
        Header { sig: h.sig + line, ..h }
    } else if tl.len() == 0 {
        h
    } else if h.phase == 0 && starts_with(tl, "///"@) {
        Header { docs: h.docs.push(tl), ..h }
    } else if starts_with(tl, "#["@) {
        Header { phase: 1, attrs: h.attrs.push(tl), ..h }
    } else {
        Header { phase: 2, sig: h.sig + line, ..h }
    }
}

pub open spec fn header_of(lines: Seq<Seq<char>>) -> Header
    decreases lines.len(),
{
    if lines.len() == 0 {
        Header { phase: 0, docs: Seq::empty(), attrs: Seq::empty(), sig: Seq::empty() }
    } else {
        header_step(header_of(lines.drop_last()), lines.last())
    }
}

/// The declaration written in the text `f` between two semicolons.
pub open spec fn parse_fragment(f: Seq<char>) -> Result<DeclModel, ParseError> {
    let h = header_of(split_on(f, "\n"@));
    parse_signature(h.sig, h.docs, h.attrs)
}

fn extend_from(out: &mut Vec<char>, v: &Vec<char>, lo: usize, hi: usize)
    requires
        lo <= hi <= v@.len(),
    ensures
        final(out)@ == old(out)@ + v@.subrange(lo as int, hi as int),
{
    let mut i = lo;
    while i < hi
        invariant
            lo <= i <= hi <= v@.len(),
            out@ == old(out)@ + v@.subrange(lo as int, i as int),
        decreases hi - i,
    {
        out.push(v[i]);
        i = i + 1;
        assert(out@ =~= old(out)@ + v@.subrange(lo as int, i as int));
    }
}

fn parse_fragment_exec(v: &Vec<char>, lo: usize, hi: usize) -> (r: Result<Declaration, ParseError>)
    requires
        lo <= hi <= v@.len(),
    ensures
        match r {
            Ok(d) => parse_fragment(v@.subrange(lo as int, hi as int)) == Ok::<DeclModel, ParseError>(d@),
            Err(e) => parse_fragment(v@.subrange(lo as int, hi as int)) == Err::<DeclModel, ParseError>(e),
        },
{
    let mut phase: u8 = 0;
    let mut docs: Vec<String> = Vec::new();
    let mut attrs: Vec<String> = Vec::new();
    let mut sig: Vec<char> = Vec::new();
    let ghost mut done: Seq<Seq<char>> = Seq::empty();
    let mut pos = lo;
    assert(strings_view(docs@) =~= Seq::<Seq<char>>::empty());
    assert(strings_view(attrs@) =~= Seq::<Seq<char>>::empty());
    assert(sig@ =~= Seq::<char>::empty());
    assert(done + split_on(v@.subrange(lo as int, hi as int), "\n"@) =~= split_on(
        v@.subrange(lo as int, hi as int),
        "\n"@,
    ));
    loop
        invariant
            lo <= pos <= hi <= v@.len(),
            split_on(v@.subrange(lo as int, hi as int), "\n"@) == done + split_on(
                v@.subrange(pos as int, hi as int),
                "\n"@,
            ),
            header_of(done) == (Header {
                phase: phase as int,
                docs: strings_view(docs@),
                attrs: strings_view(attrs@),
                sig: sig@,
            }),
            phase <= 2,
        decreases hi - pos,
    {
        proof {
            reveal_strlit("\n");
            reveal_strlit("///");
            reveal_strlit("#[");
        }
        let ghost rest = v@.subrange(pos as int, hi as int);
        let found = find(v, pos, hi, "\n");
        let end = match found {
            Some(k) => k,
            None => hi,
        };
        let ghost line = v@.subrange(pos as int, end as int);
        proof {
            lemma_first_match_found(rest, "\n"@);
            match found {
                Some(k) => {
                    assert(rest.subrange(0, k - pos) =~= line);
                    assert(rest.subrange(k - pos + 1, rest.len() as int) =~= v@.subrange(
                        k + 1,
                        hi as int,
                    ));
                },
                None => {
                    assert(rest =~= line);
                },
            }
            assert(done.push(line).drop_last() =~= done);
        }
        let ghost old_docs = docs@;
        let ghost old_attrs = attrs@;
        let (a, b) = trim_bounds(v, pos, end);
        if phase >= 2 {
            extend_from(&mut sig, v, pos, end);
        } else if a == b {
        } else if phase == 0 && matches_here(v, a, b, "///") {
            docs.push(substring(v, a, b));
            assert(strings_view(docs@) =~= strings_view(old_docs).push(v@.subrange(a as int, b as int)));
        } else if matches_here(v, a, b, "#[") {
            attrs.push(substring(v, a, b));
            assert(strings_view(attrs@) =~= strings_view(old_attrs).push(v@.subrange(a as int, b as int)));
            phase = 1;
        } else {
            extend_from(&mut sig, v, pos, end);
            phase = 2;
        }
        proof {
            done = done.push(line);
        }
        match found {
            Some(k) => {
                pos = k + 1;
            },
            None => {
                proof {
                    assert(split_on(rest, "\n"@) == seq![rest]);
                    assert(split_on(v@.subrange(lo as int, hi as int), "\n"@) =~= done);
                }
                return parse_signature_exec(&sig, docs, attrs);
            },
        }
    }
}

/// The declarations written in `frags` (the text between the braces split
/// on semicolons): blank fragments are skipped, and so are declarations
/// whose name is in `skip`; a name seen twice is an error.
pub open spec fn parse_fragments(frags: Seq<Seq<char>>, skip: Seq<Seq<char>>) -> Result<Seq<DeclModel>, ParseError>
    decreases frags.len(),
{
    if frags.len() == 0 {
        Ok(Seq::empty())
    } else {
        match parse_fragments(frags.drop_last(), skip) {
            Err(e) => Err(e),
            Ok(ds) => {
                let f = frags.last();
                if is_blank(f) {
                    Ok(ds)
                } else {
                    match parse_fragment(f) {
                        Err(e) => Err(e),
                        Ok(d) => {
                            if skip.contains(d.name) {
                                Ok(ds)
                            } else if exists|i: int| 0 <= i < ds.len() && (#[trigger] ds[i]).name == d.name {
                                Err(ParseError::DuplicateName)
                            } else {
                                Ok(ds.push(d))
                            }
                        },
                    }
                }
            },
        }
    }
}

/// The declarations inside the outermost braces of `text`: from the first
/// `{` to the last `}`.
pub open spec fn parse_block(text: Seq<char>, skip: Seq<Seq<char>>) -> Result<Seq<DeclModel>, ParseError> {
    let open = first_match(text, "{"@);
    let close = last_match(text, "}"@);
    if open < 0 || close <= open {
        Err(ParseError::UnbalancedBraces)
    } else {
        parse_fragments(split_on(text.subrange(open + 1, close), ";"@), skip)
    }
}

proof fn lemma_parse_fragments_error_persists(
    prefix: Seq<Seq<char>>,
    all: Seq<Seq<char>>,
    skip: Seq<Seq<char>>,
    e: ParseError,
)
    requires
        prefix.len() <= all.len(),
        all.subrange(0, prefix.len() as int) == prefix,
        parse_fragments(prefix, skip) == Err::<Seq<DeclModel>, ParseError>(e),
    ensures
        parse_fragments(all, skip) == Err::<Seq<DeclModel>, ParseError>(e),
    decreases all.len(),
{
    if all.len() > prefix.len() {
        assert(all.drop_last().subrange(0, prefix.len() as int) =~= prefix);
        lemma_parse_fragments_error_persists(prefix, all.drop_last(), skip, e);
    } else {
        assert(all.subrange(0, prefix.len() as int) =~= all);
    }
}

fn contains_name(names: &Vec<String>, name: &String) -> (r: bool)
    ensures
        r == strings_view(names@).contains(name@),
{
    let mut i: usize = 0;
    while i < names.len()
        invariant
            i <= names@.len(),
            forall|j: int| 0 <= j < i ==> names@[j]@ != name@,
        decreases names@.len() - i,
    {
        if names[i] == *name {
            assert(strings_view(names@)[i as int] == name@);
            return true;
        }
        i = i + 1;
    }
    proof {
        if strings_view(names@).contains(name@) {
            let j = choose|j: int| 0 <= j < strings_view(names@).len() && strings_view(names@)[j] == name@;
            assert(names@[j]@ == name@);
        }
    }
    false
}

fn name_taken(ds: &Vec<Declaration>, name: &String) -> (r: bool)
    ensures
        r == exists|i: int| 0 <= i < decls_view(ds@).len() && (#[trigger] decls_view(ds@)[i]).name == name@,
{
    let mut i: usize = 0;
    while i < ds.len()
        invariant
            i <= ds@.len(),
            forall|j: int| 0 <= j < i ==> ds@[j].name@ != name@,
        decreases ds@.len() - i,
    {
        if ds[i].name == *name {
            assert(decls_view(ds@)[i as int].name == name@);
            return true;
        }
        i = i + 1;
    }
    proof {
        assert forall|j: int| 0 <= j < decls_view(ds@).len() implies (#[trigger] decls_view(ds@)[j]).name != name@ by {
            assert(decls_view(ds@)[j] == ds@[j]@);
        }
    }
    false
}

/// Parses the declaration block `text`, leaving out every declaration whose
/// name is in `skip`.
///
/// Fails when the block has no enclosing braces, when a declaration is
/// malformed (no `fn`, no name, an unclosed `<`, `(` or `)`, an argument
/// without `:`), or when two kept declarations share a name.
pub fn parse_declarations(text: &str, skip: &Vec<String>) -> (r: Result<Vec<Declaration>, ParseError>)
    ensures
        match r {
            Ok(ds) => parse_block(text@, strings_view(skip@)) == Ok::<Seq<DeclModel>, ParseError>(decls_view(ds@)),
            Err(e) => parse_block(text@, strings_view(skip@)) == Err::<Seq<DeclModel>, ParseError>(e),
        },
{
    proof {
        reveal_strlit("{");
        reveal_strlit("}");
    }
    let v = chars_of(text);
    let n = v.len();
    assert(v@.subrange(0, n as int) =~= text@);
    let open = match find(&v, 0, n, "{") {
        None => return Err(ParseError::UnbalancedBraces),
        Some(o) => o,
    };
    let close = match rfind(&v, 0, n, "}") {
        None => return Err(ParseError::UnbalancedBraces),
        Some(c) => c,
    };
    if close <= open {
        return Err(ParseError::UnbalancedBraces);
    }
    assert(v@ =~= text@);
    let ghost body = text@.subrange(open + 1, close as int);
    let ghost all = split_on(body, ";"@);
    let ghost sk = strings_view(skip@);
    assert(v@.subrange(open + 1, close as int) =~= body);
    let mut ds: Vec<Declaration> = Vec::new();
    let ghost mut done: Seq<Seq<char>> = Seq::empty();
    let mut pos = open + 1;
    assert(decls_view(ds@) =~= Seq::<DeclModel>::empty());
    assert(done + all =~= all);
    loop
        invariant
            open + 1 <= pos <= close < n == v@.len(),
            v@ == text@,
            open as int == first_match(text@, "{"@),
            close as int == last_match(text@, "}"@),
            body == text@.subrange(open + 1, close as int),
            body == v@.subrange(open + 1, close as int),
            all == split_on(body, ";"@),
            sk == strings_view(skip@),
            all == done + split_on(v@.subrange(pos as int, close as int), ";"@),
            parse_fragments(done, sk) == Ok::<Seq<DeclModel>, ParseError>(decls_view(ds@)),
        decreases close - pos,
    {
        proof {
            reveal_strlit(";");
        }
        let ghost rest = v@.subrange(pos as int, close as int);
        let found = find(&v, pos, close, ";");
        let end = match found {
            Some(k) => k,
            None => close,
        };
        let ghost frag = v@.subrange(pos as int, end as int);
        proof {
            lemma_first_match_found(rest, ";"@);
            match found {
                Some(k) => {
                    assert(rest.subrange(0, k - pos) =~= frag);
                    assert(rest.subrange(k - pos + 1, rest.len() as int) =~= v@.subrange(
                        k + 1,
                        close as int,
                    ));
                },
                None => {
                    assert(rest =~= frag);
                },
            }
            assert(done.push(frag).drop_last() =~= done);
            assert(all.subrange(0, done.len() as int + 1) =~= done.push(frag));
        }
        let (a, b) = trim_bounds(&v, pos, end);
        if a < b {
            match parse_fragment_exec(&v, pos, end) {
                Err(e) => {
                    proof {
                        let prev = done;
                        done = done.push(frag);
                        assert(done.drop_last() == prev);
                        assert(!is_blank(frag));
                        assert(parse_fragments(done, sk) == Err::<Seq<DeclModel>, ParseError>(e));
                        lemma_parse_fragments_error_persists(done, all, sk, e);
                    }
                    return Err(e);
                },
                Ok(d) => {
                    if contains_name(skip, &d.name) {
                    } else if name_taken(&ds, &d.name) {
                        proof {
                            done = done.push(frag);
                            lemma_parse_fragments_error_persists(done, all, sk, ParseError::DuplicateName);
                        }
                        return Err(ParseError::DuplicateName);
                    } else {
                        let ghost old_ds = ds@;
                        ds.push(d);
                        assert(decls_view(ds@) =~= decls_view(old_ds).push(d@));
                    }
                },
            }
        }
        proof {
            done = done.push(frag);
        }
        match found {
            Some(k) => {
                pos = k + 1;
            },
            None => {
                proof {
                    assert(split_on(rest, ";"@) == seq![rest]);
                    assert(all =~= done);
                }
                return Ok(ds);
            },
        }
    }
}

/// A type spelling that the argument grammar reads back unchanged: not
/// empty, no whitespace at either end, no comma.
pub open spec fn is_type_spelling(t: Seq<char>) -> bool {
    &&& t.len() > 0
    &&& !is_ws(t[0])
    &&& !is_ws(t.last())
    &&& forall|i: int| 0 <= i < t.len() ==> t[i] != ','
}

/// Arguments whose names are identifiers and whose type spellings are
/// trimmed and free of commas.
pub open spec fn args_read_back(args: Seq<(Seq<char>, Seq<char>)>) -> bool {
    forall|i: int| 0 <= i < args.len() ==> is_ident(#[trigger] args[i].0) && is_type_spelling(args[i].1)
}

/// An argument as the binding wrapper writes it: `name: Type`.
pub open spec fn render_arg(a: (Seq<char>, Seq<char>)) -> Seq<char> {
    a.0 + ": "@ + a.1
}

/// The pieces that splitting a rendered argument list on commas yields:
/// the first argument, then each further one behind the space that
/// followed its comma.
spec fn arg_pieces(args: Seq<(Seq<char>, Seq<char>)>) -> Seq<Seq<char>>
    decreases args.len(),
{
    if args.len() <= 1 {
        args.map_values(|a: (Seq<char>, Seq<char>)| render_arg(a))
    } else {
        arg_pieces(args.drop_last()).push(" "@ + render_arg(args.last()))
    }
}

proof fn lemma_trim_plain(q: Seq<char>)
    requires
        q.len() > 0,
        !is_ws(q[0]),
        !is_ws(q.last()),
    ensures
        trim(q) == q,
        trim(" "@ + q) == q,
{
    reveal_strlit(" ");
    assert((" "@ + q).drop_first() =~= q);
}

/// One piece `w name: Type` (with `w` empty or a space) reads back as
/// (name, Type).
proof fn lemma_piece(w: Seq<char>, a: (Seq<char>, Seq<char>))
    requires
        w == Seq::<char>::empty() || w == " "@,
        is_ident(a.0),
        is_type_spelling(a.1),
    ensures
        !is_blank(w + render_arg(a)),
        first_match(w + render_arg(a), ":"@) == w.len() + a.0.len(),
        trim((w + render_arg(a)).subrange(0, w.len() + a.0.len() as int)) == a.0,
        trim((w + render_arg(a)).subrange(w.len() + a.0.len() as int + 1, (w + render_arg(a)).len() as int))
            == a.1,
        forall|i: int| 0 <= i < (w + render_arg(a)).len() ==> (w + render_arg(a))[i] != ',',
{
    reveal_strlit(" ");
    reveal_strlit(": ");
    reveal_strlit(":");
    let n = a.0;
    let t = a.1;
    let p = w + render_arg(a);
    let c: int = (w.len() + n.len()) as int;
    assert(is_ident_char(n[0]));
    assert(is_ident_char(n[n.len() - 1]));
    let body = render_arg(a);
    assert(body[body.len() - 1] == t[t.len() - 1]);
    lemma_trim_plain(body);
    assert(w + body =~= body || w + body =~= " "@ + body);
    assert(trim(p) == body);
    assert(p[c] == ':');
    assert forall|j: int| 0 <= j < c implies !#[trigger] matches_at(p, ":"@, j) by {
        lemma_char_match(p, ":"@, j);
        if j >= w.len() {
            assert(p[j] == n[j - w.len()]);
            assert(is_ident_char(n[j - w.len()]));
        }
    }
    lemma_char_match(p, ":"@, c);
    lemma_first_match_is(p, ":"@, c);
    lemma_trim_plain(n);
    assert(p.subrange(0, c) =~= w + n);
    assert(w + n =~= n || w + n =~= " "@ + n);
    assert(p.subrange(c + 1, p.len() as int) =~= " "@ + t);
    lemma_trim_plain(t);
    assert forall|i: int| 0 <= i < p.len() implies p[i] != ',' by {
        if w.len() <= i < c {
            assert(is_ident_char(n[i - w.len()]));
        } else if i >= c + 2 {
            assert(p[i] == t[i - c - 2]);
        }
    }
}

proof fn lemma_split_rendered(args: Seq<(Seq<char>, Seq<char>)>)
    requires
        args.len() >= 1,
        args_read_back(args),
    ensures
        split_on(join(args.map_values(|a: (Seq<char>, Seq<char>)| render_arg(a)), ", "@), ","@)
            == arg_pieces(args),
    decreases args.len(),
{
    reveal_strlit(",");
    reveal_strlit(", ");
    reveal_strlit(" ");
    let items = args.map_values(|a: (Seq<char>, Seq<char>)| render_arg(a));
    let last = args.last();
    assert(is_ident(args[args.len() - 1].0));
    assert(args_read_back(args.drop_last())) by {
        assert forall|i: int| 0 <= i < args.drop_last().len() implies is_ident(
            #[trigger] args.drop_last()[i].0,
        ) && is_type_spelling(args.drop_last()[i].1) by {
            assert(args.drop_last()[i] == args[i]);
            assert(is_ident(args[i].0));
        }
    }
    lemma_piece(Seq::empty(), last);
    lemma_piece(" "@, last);
    assert(Seq::<char>::empty() + render_arg(last) =~= render_arg(last));
    if args.len() == 1 {
        assert(join(items, ", "@) == render_arg(last));
        assert forall|j: int| !#[trigger] matches_at(render_arg(last), ","@, j) by {
            lemma_char_match(render_arg(last), ","@, j);
        }
        lemma_first_match_none(render_arg(last), ","@);
        assert(arg_pieces(args) =~= seq![render_arg(last)]);
    } else {
        let front = args.drop_last();
        assert(items.drop_last() =~= front.map_values(|a: (Seq<char>, Seq<char>)| render_arg(a)));
        lemma_split_rendered(front);
        assert(join(items, ", "@) =~= join(items.drop_last(), ", "@) + ","@ + (" "@ + render_arg(
            last,
        )));
        lemma_split_push(join(items.drop_last(), ", "@), ","@, " "@ + render_arg(last));
    }
}

proof fn lemma_parse_pieces(args: Seq<(Seq<char>, Seq<char>)>)
    requires
        args.len() >= 1,
        args_read_back(args),
    ensures
        parse_args(arg_pieces(args)) == Ok::<Seq<(Seq<char>, Seq<char>)>, ParseError>(args),
    decreases args.len(),
{
    reveal_strlit(" ");
    let last = args.last();
    assert(is_ident(args[args.len() - 1].0));
    assert(args_read_back(args.drop_last())) by {
        assert forall|i: int| 0 <= i < args.drop_last().len() implies is_ident(
            #[trigger] args.drop_last()[i].0,
        ) && is_type_spelling(args.drop_last()[i].1) by {
            assert(args.drop_last()[i] == args[i]);
            assert(is_ident(args[i].0));
        }
    }
    if args.len() == 1 {
        let e = Seq::<char>::empty();
        lemma_piece(e, last);
        let pc = render_arg(last);
        assert(e + pc =~= pc);
        let ps = arg_pieces(args);
        assert(ps =~= seq![pc]);
        assert(ps.drop_last() =~= Seq::<Seq<char>>::empty());
        assert(ps.last() == pc);
        let c = first_match(pc, ":"@);
        assert(c == last.0.len());
        assert(!is_blank(pc));
        assert(trim(pc.subrange(0, c)) == last.0);
        assert(trim(pc.subrange(c + 1, pc.len() as int)) == last.1);
        assert(parse_args(ps.drop_last()) == Ok::<Seq<(Seq<char>, Seq<char>)>, ParseError>(Seq::empty()));
        assert(Seq::<(Seq<char>, Seq<char>)>::empty().push(last) =~= args);
    } else {
        lemma_piece(" "@, last);
        let pc = " "@ + render_arg(last);
        lemma_parse_pieces(args.drop_last());
        let ps = arg_pieces(args);
        assert(ps.drop_last() =~= arg_pieces(args.drop_last()));
        assert(ps.last() == pc);
        let c = first_match(pc, ":"@);
        assert(c == 1 + last.0.len());
        assert(!is_blank(pc));
        assert(args.drop_last().push(last) =~= args);
    }
}

/// The parameter list that a binding wrapper writes for `args` reads back
/// as `args`, in the same order, when every name is an identifier and every
/// type spelling is trimmed and free of commas.
pub proof fn lemma_params_round_trip(args: Seq<(Seq<char>, Seq<char>)>)
    requires
        args_read_back(args),
    ensures
        parse_args(
            split_on(join(args.map_values(|a: (Seq<char>, Seq<char>)| render_arg(a)), ", "@), ","@),
        ) == Ok::<Seq<(Seq<char>, Seq<char>)>, ParseError>(args),
{
    if args.len() == 0 {
        reveal_strlit(",");
        let items = args.map_values(|a: (Seq<char>, Seq<char>)| render_arg(a));
        assert(items.len() == 0);
        assert forall|j: int| !#[trigger] matches_at(Seq::<char>::empty(), ","@, j) by {
            lemma_char_match(Seq::<char>::empty(), ","@, j);
        }
        lemma_first_match_none(Seq::<char>::empty(), ","@);
        let ps = split_on(Seq::<char>::empty(), ","@);
        assert(ps == seq![Seq::<char>::empty()]);
        assert(ps.drop_last() =~= Seq::<Seq<char>>::empty());
        assert(join(items, ", "@) == Seq::<char>::empty());
        assert(is_blank(Seq::<char>::empty()));
        assert(ps.last() == Seq::<char>::empty());
        assert(parse_args(ps.drop_last()) == Ok::<Seq<(Seq<char>, Seq<char>)>, ParseError>(Seq::empty()));
        assert(parse_args(ps) == Ok::<Seq<(Seq<char>, Seq<char>)>, ParseError>(Seq::empty()));
        assert(args =~= Seq::<(Seq<char>, Seq<char>)>::empty());
    } else {
        lemma_split_rendered(args);
        lemma_parse_pieces(args);
    }
}

} // verus!
