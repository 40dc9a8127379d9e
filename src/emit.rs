//! Renders each declaration as a pair of forwarding functions that carry a
//! native exception across the language boundary as a tagged result: a
//! binding-language wrapper and a native (C++) wrapper, paired by the
//! suffixed name of the native entry point.
use vstd::prelude::*;
use crate::decl::{Argument, DeclModel, Declaration, decls_view, strings_view};
use crate::parse::{ParseError, args_read_back, lemma_params_round_trip, parse_args, render_arg};
use crate::text::{join, matches_at, split_on, starts_with};
use crate::type_map::{native_type, native_type_of};

verus! {

/// The fixed text that opens the generated native file: the tagged result
/// type, its specialization for functions that return nothing, and the
/// exception type that carries an error payload.
pub const NATIVE_PREAMBLE: &'static str = "#include <stddef.h>
#include <stdio.h>
#include \"jpeglib.h\"

struct wrapper_error_payload {
    unsigned char *data;
    size_t len;
    size_t capacity;
};

struct wrapper_error {
    wrapper_error_payload p;
    wrapper_error_payload payload() const { return p; }
};

template <typename T>
struct wrapper_result {
    unsigned int tag;
    union {
        T value;
        wrapper_error_payload error;
    };
    static wrapper_result ok(T v) { wrapper_result r; r.tag = 0; r.value = v; return r; }
    static wrapper_result err(wrapper_error_payload e) { wrapper_result r; r.tag = 1; r.error = e; return r; }
};

template <>
struct wrapper_result<void> {
    unsigned int tag;
    wrapper_error_payload error;
    static wrapper_result ok() { wrapper_result r; r.tag = 0; return r; }
    static wrapper_result err(wrapper_error_payload e) { wrapper_result r; r.tag = 1; r.error = e; return r; }
};

";

/// Each of `items` followed by a newline.
pub open spec fn lines_of(items: Seq<Seq<char>>) -> Seq<char>
    decreases items.len(),
{
    if items.len() == 0 {
        Seq::empty()
    } else {
        lines_of(items.drop_last()) + items.last() + "\n"@
    }
}

/// The argument names of `d`, in declaration order, separated by commas.
pub open spec fn arg_names(d: DeclModel) -> Seq<char> {
    join(d.args.map_values(|a: (Seq<char>, Seq<char>)| a.0), ", "@)
}

/// The parameter list of `d` in binding-language syntax.
pub open spec fn binding_params(d: DeclModel) -> Seq<char> {
    join(d.args.map_values(|a: (Seq<char>, Seq<char>)| render_arg(a)), ", "@)
}

/// The parameter list of `d` in native syntax.
pub open spec fn native_params(d: DeclModel) -> Seq<char> {
    join(d.args.map_values(|a: (Seq<char>, Seq<char>)| native_type_of(a.1) + " "@ + a.0), ", "@)
}

pub open spec fn generics(d: DeclModel) -> Seq<char> {
    match d.lifetime {
        Some(l) => "<"@ + l + ">"@,
        None => Seq::empty(),
    }
}

/// Name of the native entry point that wraps `d`.
pub open spec fn entry_name(d: DeclModel) -> Seq<char> {
    d.name + "_wrapper"@
}

/// The binding wrapper's signature, up to and including the return type.
pub open spec fn binding_signature(d: DeclModel) -> Seq<char> {
    (if d.is_public {
        "pub "@
    } else {
        Seq::empty()
    }) + "unsafe fn "@ + d.name + generics(d) + "("@ + binding_params(d) + ")"@ + match d.ret {
        Some(r) => " -> "@ + r,
        None => Seq::empty(),
    }
}

/// The tagged result type of the entry point, in binding-language syntax.
pub open spec fn binding_result(d: DeclModel) -> Seq<char> {
    "WrapperResult<"@ + match d.ret {
        Some(r) => r,
        None => "()"@,
    } + ">"@
}

/// The call through which the binding wrapper forwards its arguments.
pub open spec fn forward_call(d: DeclModel) -> Seq<char> {
    entry_name(d) + "("@ + arg_names(d) + ")"@
}

/// The binding-language wrapper of `d`: doc and attribute lines, then a
/// function with the declaration's own signature that declares the native
/// entry point, calls it and unwraps its tagged result.
pub open spec fn binding_wrapper(d: DeclModel) -> Seq<char> {
    lines_of(d.docs) + lines_of(d.attrs) + binding_signature(d) + " {\n"@
        + "    extern \"C-unwind\" {\n"@ + "        fn "@ + entry_name(d) + generics(d) + "("@
        + binding_params(d) + ") -> "@ + binding_result(d) + ";\n    }\n"@ + "    "@
        + forward_call(d) + ".unwrap_or_raise()\n}\n"@
}

/// The tagged result type of the entry point, in native syntax.
pub open spec fn native_result(d: DeclModel) -> Seq<char> {
    "wrapper_result<"@ + match d.ret {
        Some(r) => native_type_of(r),
        None => "void"@,
    } + ">"@
}

/// The call of the real library function inside the native wrapper.
pub open spec fn native_call(d: DeclModel) -> Seq<char> {
    d.name + "("@ + arg_names(d) + ")"@
}

/// The statements inside the native wrapper's `try` block.
pub open spec fn native_try_body(d: DeclModel) -> Seq<char> {
    match d.ret {
        Some(_) => "        return "@ + native_result(d) + "::ok("@ + native_call(d) + ");\n"@,
        None => "        "@ + native_call(d) + ";\n        return "@ + native_result(d) + "::ok();\n"@,
    }
}

/// The native wrapper of `d`: calls the library function inside a `try`
/// block and turns a thrown `wrapper_error` into the error arm of the
/// tagged result.
pub open spec fn native_wrapper(d: DeclModel) -> Seq<char> {
    "extern \"C\" "@ + native_result(d) + " "@ + entry_name(d) + "("@ + native_params(d)
        + ") {\n    try {\n"@ + native_try_body(d)
        + "    } catch (const wrapper_error &e) {\n        return "@ + native_result(d)
        + "::err(e.payload());\n    }\n}\n"@
}

/// The generated binding-language file for `ds`.
pub open spec fn binding_text(ds: Seq<DeclModel>) -> Seq<char>
    decreases ds.len(),
{
    if ds.len() == 0 {
        Seq::empty()
    } else {
        binding_text(ds.drop_last()) + binding_wrapper(ds.last()) + "\n"@
    }
}

pub open spec fn native_wrappers(ds: Seq<DeclModel>) -> Seq<char>
    decreases ds.len(),
{
    if ds.len() == 0 {
        Seq::empty()
    } else {
        native_wrappers(ds.drop_last()) + native_wrapper(ds.last()) + "\n"@
    }
}

/// The generated native file for `ds`: the fixed preamble, then one wrapper
/// per declaration.
pub open spec fn native_text(ds: Seq<DeclModel>) -> Seq<char> {
    NATIVE_PREAMBLE@ + native_wrappers(ds)
}

fn push_lines(out: &mut String, items: &Vec<String>)
    ensures
        final(out)@ == old(out)@ + lines_of(strings_view(items@)),
{
    let mut i: usize = 0;
    while i < items.len()
        invariant
            i <= items@.len(),
            out@ == old(out)@ + lines_of(strings_view(items@.subrange(0, i as int))),
        decreases items@.len() - i,
    {
        out.append(items[i].as_str());
        out.append("\n");
        i = i + 1;
        assert(strings_view(items@.subrange(0, i as int)).drop_last() =~= strings_view(
            items@.subrange(0, i - 1),
        ));
        assert(out@ =~= old(out)@ + lines_of(strings_view(items@.subrange(0, i as int))));
    }
    assert(items@.subrange(0, i as int) =~= items@);
}

/// Which rendering of an argument a joined list is made of.
enum ArgForm {
    Name,
    Binding,
    Native,
}

spec fn arg_text(form: ArgForm, a: (Seq<char>, Seq<char>)) -> Seq<char> {
    match form {
        ArgForm::Name => a.0,
        ArgForm::Binding => a.0 + ": "@ + a.1,
        ArgForm::Native => native_type_of(a.1) + " "@ + a.0,
    }
}

fn push_args(out: &mut String, args: &Vec<Argument>, form: ArgForm)
    ensures
        final(out)@ == old(out)@ + join(
            args@.map_values(|a: Argument| arg_text(form, a@)),
            ", "@,
        ),
{
    let ghost texts = args@.map_values(|a: Argument| arg_text(form, a@));
    let mut i: usize = 0;
    while i < args.len()
        invariant
            i <= args@.len(),
            texts == args@.map_values(|a: Argument| arg_text(form, a@)),
            out@ == old(out)@ + join(texts.subrange(0, i as int), ", "@),
        decreases args@.len() - i,
    {
        if i > 0 {
            out.append(", ");
        }
        match form {
            ArgForm::Name => {
                out.append(args[i].name.as_str());
            },
            ArgForm::Binding => {
                out.append(args[i].name.as_str());
                out.append(": ");
                out.append(args[i].ty.as_str());
            },
            ArgForm::Native => {
                let t = native_type(args[i].ty.as_str());
                out.append(t.as_str());
                out.append(" ");
                out.append(args[i].name.as_str());
            },
        }
        i = i + 1;
        assert(texts.subrange(0, i as int).drop_last() =~= texts.subrange(0, i - 1));
        assert(out@ =~= old(out)@ + join(texts.subrange(0, i as int), ", "@));
    }
    assert(texts.subrange(0, i as int) =~= texts);
}

proof fn lemma_arg_forms(d: &Declaration)
    ensures
        d.arguments@.map_values(|a: Argument| arg_text(ArgForm::Name, a@)) == d@.args.map_values(
            |a: (Seq<char>, Seq<char>)| a.0,
        ),
        d.arguments@.map_values(|a: Argument| arg_text(ArgForm::Binding, a@))
            == d@.args.map_values(|a: (Seq<char>, Seq<char>)| render_arg(a)),
        d.arguments@.map_values(|a: Argument| arg_text(ArgForm::Native, a@))
            == d@.args.map_values(
            |a: (Seq<char>, Seq<char>)| native_type_of(a.1) + " "@ + a.0,
        ),
{
    assert(d.arguments@.map_values(|a: Argument| arg_text(ArgForm::Name, a@)) =~= d@.args.map_values(
        |a: (Seq<char>, Seq<char>)| a.0,
    ));
    assert(d.arguments@.map_values(|a: Argument| arg_text(ArgForm::Binding, a@))
        =~= d@.args.map_values(|a: (Seq<char>, Seq<char>)| render_arg(a)));
    assert(d.arguments@.map_values(|a: Argument| arg_text(ArgForm::Native, a@))
        =~= d@.args.map_values(|a: (Seq<char>, Seq<char>)| native_type_of(a.1) + " "@ + a.0));
}

fn push_generics(out: &mut String, d: &Declaration)
    ensures
        final(out)@ == old(out)@ + generics(d@),
{
    match &d.lifetime {
        Some(l) => {
            out.append("<");
            out.append(l.as_str());
            out.append(">");
        },
        None => {
            assert(old(out)@ + Seq::<char>::empty() =~= old(out)@);
        },
    }
}

fn push_binding_signature(out: &mut String, d: &Declaration)
    ensures
        final(out)@ == old(out)@ + binding_signature(d@),
{
    proof {
        lemma_arg_forms(d);
    }
    if d.is_public {
        out.append("pub ");
    }
    out.append("unsafe fn ");
    out.append(d.name.as_str());
    push_generics(out, d);
    out.append("(");
    push_args(out, &d.arguments, ArgForm::Binding);
    out.append(")");
    match &d.return_type {
        Some(r) => {
            out.append(" -> ");
            out.append(r.as_str());
        },
        None => {},
    }
    assert(final(out)@ =~= old(out)@ + binding_signature(d@));
}

fn push_entry_declaration(out: &mut String, d: &Declaration)
    ensures
        final(out)@ == old(out)@ + "        fn "@ + entry_name(d@) + generics(d@) + "("@
            + binding_params(d@) + ") -> "@ + binding_result(d@),
{
    proof {
        lemma_arg_forms(d);
    }
    out.append("        fn ");
    out.append(d.name.as_str());
    out.append("_wrapper");
    push_generics(out, d);
    out.append("(");
    push_args(out, &d.arguments, ArgForm::Binding);
    out.append(") -> ");
    out.append("WrapperResult<");
    match &d.return_type {
        Some(r) => {
            out.append(r.as_str());
        },
        None => {
            out.append("()");
        },
    }
    out.append(">");
    assert(final(out)@ =~= old(out)@ + "        fn "@ + entry_name(d@) + generics(d@) + "("@
        + binding_params(d@) + ") -> "@ + binding_result(d@));
}

fn push_forward_call(out: &mut String, d: &Declaration)
    ensures
        final(out)@ == old(out)@ + forward_call(d@),
{
    proof {
        lemma_arg_forms(d);
    }
    out.append(d.name.as_str());
    out.append("_wrapper");
    out.append("(");
    push_args(out, &d.arguments, ArgForm::Name);
    out.append(")");
    assert(final(out)@ =~= old(out)@ + forward_call(d@));
}

/// The binding-language wrapper of `d`.
pub fn emit_binding_wrapper(d: &Declaration) -> (r: String)
    ensures
        r@ == binding_wrapper(d@),
{
    let mut out = String::new();
    push_lines(&mut out, &d.doc_lines);
    push_lines(&mut out, &d.attribute_lines);
    push_binding_signature(&mut out, d);
    out.append(" {\n");
    out.append("    extern \"C-unwind\" {\n");
    push_entry_declaration(&mut out, d);
    out.append(";\n    }\n");
    out.append("    ");
    push_forward_call(&mut out, d);
    out.append(".unwrap_or_raise()\n}\n");
    assert(out@ =~= binding_wrapper(d@));
    out
}

fn push_native_result(out: &mut String, d: &Declaration)
    ensures
        final(out)@ == old(out)@ + native_result(d@),
{
    out.append("wrapper_result<");
    match &d.return_type {
        Some(r) => {
            let t = native_type(r.as_str());
            out.append(t.as_str());
        },
        None => {
            out.append("void");
        },
    }
    out.append(">");
    assert(final(out)@ =~= old(out)@ + native_result(d@));
}

fn push_native_call(out: &mut String, d: &Declaration)
    ensures
        final(out)@ == old(out)@ + native_call(d@),
{
    proof {
        lemma_arg_forms(d);
    }
    out.append(d.name.as_str());
    out.append("(");
    push_args(out, &d.arguments, ArgForm::Name);
    out.append(")");
    assert(final(out)@ =~= old(out)@ + native_call(d@));
}

/// The native (C++) wrapper of `d`.
pub fn emit_native_wrapper(d: &Declaration) -> (r: String)
    ensures
        r@ == native_wrapper(d@),
{
    proof {
        lemma_arg_forms(d);
    }
    let mut out = String::new();
    out.append("extern \"C\" ");
    push_native_result(&mut out, d);
    out.append(" ");
    out.append(d.name.as_str());
    out.append("_wrapper");
    out.append("(");
    push_args(&mut out, &d.arguments, ArgForm::Native);
    out.append(") {\n    try {\n");
    let ghost before_body = out@;
    match &d.return_type {
        Some(_) => {
            out.append("        return ");
            push_native_result(&mut out, d);
            out.append("::ok(");
            push_native_call(&mut out, d);
            out.append(");\n");
        },
        None => {
            out.append("        ");
            push_native_call(&mut out, d);
            out.append(";\n        return ");
            push_native_result(&mut out, d);
            out.append("::ok();\n");
        },
    }
    assert(out@ =~= before_body + native_try_body(d@));
    out.append("    } catch (const wrapper_error &e) {\n        return ");
    push_native_result(&mut out, d);
    out.append("::err(e.payload());\n    }\n}\n");
    assert(out@ =~= native_wrapper(d@));
    out
}

/// The generated binding-language file: one wrapper per declaration, each
/// followed by a blank line.
pub fn emit_binding_file(ds: &Vec<Declaration>) -> (r: String)
    ensures
        r@ == binding_text(decls_view(ds@)),
{
    let mut out = String::new();
    let mut i: usize = 0;
    while i < ds.len()
        invariant
            i <= ds@.len(),
            out@ == binding_text(decls_view(ds@.subrange(0, i as int))),
        decreases ds@.len() - i,
    {
        let w = emit_binding_wrapper(&ds[i]);
        out.append(w.as_str());
        out.append("\n");
        i = i + 1;
        assert(decls_view(ds@.subrange(0, i as int)).drop_last() =~= decls_view(
            ds@.subrange(0, i - 1),
        ));
        assert(out@ =~= binding_text(decls_view(ds@.subrange(0, i as int))));
    }
    assert(ds@.subrange(0, i as int) =~= ds@);
    out
}

/// The generated native file: the fixed preamble, then one wrapper per
/// declaration, each followed by a blank line.
pub fn emit_native_file(ds: &Vec<Declaration>) -> (r: String)
    ensures
        r@ == native_text(decls_view(ds@)),
{
    let mut out = String::from_str(NATIVE_PREAMBLE);
    let mut i: usize = 0;
    assert(decls_view(ds@.subrange(0, 0)) =~= Seq::<DeclModel>::empty());
    assert(out@ =~= NATIVE_PREAMBLE@ + native_wrappers(Seq::<DeclModel>::empty()));
    while i < ds.len()
        invariant
            i <= ds@.len(),
            out@ == NATIVE_PREAMBLE@ + native_wrappers(decls_view(ds@.subrange(0, i as int))),
        decreases ds@.len() - i,
    {
        let w = emit_native_wrapper(&ds[i]);
        out.append(w.as_str());
        out.append("\n");
        i = i + 1;
        assert(decls_view(ds@.subrange(0, i as int)).drop_last() =~= decls_view(
            ds@.subrange(0, i - 1),
        ));
        assert(out@ =~= NATIVE_PREAMBLE@ + native_wrappers(decls_view(ds@.subrange(0, i as int))));
    }
    assert(ds@.subrange(0, i as int) =~= ds@);
    out
}

proof fn lemma_contains_middle(a: Seq<char>, b: Seq<char>, c: Seq<char>)
    ensures
        matches_at(a + b + c, b, a.len() as int),
{
    assert((a + b + c).subrange(a.len() as int, a.len() + b.len() as int) =~= b);
}

/// Both wrappers of a declaration pass its arguments on by name, in the
/// order of the declaration's own argument list: the binding wrapper's
/// forwarding call and the native wrapper's call of the library function
/// both carry the same comma-separated list of argument names. The
/// parameter list written into the binding wrapper parses back to the same
/// arguments in the same order.
pub proof fn lemma_argument_order(d: DeclModel)
    ensures
        args_read_back(d.args) ==> parse_args(split_on(binding_params(d), ","@)) == Ok::<
            Seq<(Seq<char>, Seq<char>)>,
            ParseError,
        >(d.args),
        arg_names(d) == join(d.args.map_values(|a: (Seq<char>, Seq<char>)| a.0), ", "@),
        forward_call(d) == d.name + "_wrapper("@ + arg_names(d) + ")"@,
        native_call(d) == d.name + "("@ + arg_names(d) + ")"@,
        exists|i: int| matches_at(binding_wrapper(d), forward_call(d), i),
        exists|i: int| matches_at(native_wrapper(d), native_call(d), i),
{
    if args_read_back(d.args) {
        lemma_params_round_trip(d.args);
    }
    reveal_strlit("_wrapper");
    reveal_strlit("(");
    reveal_strlit("_wrapper(");
    assert(forward_call(d) =~= d.name + "_wrapper("@ + arg_names(d) + ")"@);
    let pre = lines_of(d.docs) + lines_of(d.attrs) + binding_signature(d) + " {\n"@
        + "    extern \"C-unwind\" {\n"@ + "        fn "@ + entry_name(d) + generics(d) + "("@
        + binding_params(d) + ") -> "@ + binding_result(d) + ";\n    }\n"@ + "    "@;
    let post = ".unwrap_or_raise()\n}\n"@;
    assert(binding_wrapper(d) =~= pre + forward_call(d) + post);
    lemma_contains_middle(pre, forward_call(d), post);
    let body_pre = match d.ret {
        Some(_) => "        return "@ + native_result(d) + "::ok("@,
        None => "        "@,
    };
    let body_post = match d.ret {
        Some(_) => ");\n"@,
        None => ";\n        return "@ + native_result(d) + "::ok();\n"@,
    };
    let npre = "extern \"C\" "@ + native_result(d) + " "@ + entry_name(d) + "("@ + native_params(d)
        + ") {\n    try {\n"@ + body_pre;
    let npost = body_post + "    } catch (const wrapper_error &e) {\n        return "@
        + native_result(d) + "::err(e.payload());\n    }\n}\n"@;
    assert(native_wrapper(d) =~= npre + native_call(d) + npost);
    lemma_contains_middle(npre, native_call(d), npost);
}

/// A declaration that returns nothing gets a native wrapper whose result is
/// the `void` specialization of the tagged result, and a binding wrapper
/// whose signature has no return type.
pub proof fn lemma_void_return(d: DeclModel)
    requires
        d.ret is None,
    ensures
        native_result(d) == "wrapper_result<void>"@,
        starts_with(native_wrapper(d), "extern \"C\" wrapper_result<void> "@),
        native_try_body(d) == "        "@ + native_call(d)
            + ";\n        return wrapper_result<void>::ok();\n"@,
        binding_result(d) == "WrapperResult<()>"@,
        binding_signature(d) == (if d.is_public {
            "pub "@
        } else {
            Seq::empty()
        }) + "unsafe fn "@ + d.name + generics(d) + "("@ + binding_params(d) + ")"@,
{
    reveal_strlit("wrapper_result<");
    reveal_strlit("void");
    reveal_strlit(">");
    reveal_strlit("wrapper_result<void>");
    reveal_strlit("extern \"C\" ");
    reveal_strlit(" ");
    reveal_strlit("extern \"C\" wrapper_result<void> ");
    reveal_strlit(";\n        return ");
    reveal_strlit("::ok();\n");
    reveal_strlit(";\n        return wrapper_result<void>::ok();\n");
    reveal_strlit("WrapperResult<");
    reveal_strlit("()");
    reveal_strlit("WrapperResult<()>");
    assert(native_result(d) =~= "wrapper_result<void>"@);
    assert(native_wrapper(d).subrange(0, "extern \"C\" wrapper_result<void> "@.len() as int)
        =~= "extern \"C\" wrapper_result<void> "@);
    assert(native_try_body(d) =~= "        "@ + native_call(d)
        + ";\n        return wrapper_result<void>::ok();\n"@);
    assert(binding_result(d) =~= "WrapperResult<()>"@);
    assert(binding_signature(d) =~= (if d.is_public {
        "pub "@
    } else {
        Seq::empty()
    }) + "unsafe fn "@ + d.name + generics(d) + "("@ + binding_params(d) + ")"@);
}

} // verus!
