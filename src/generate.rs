//! The whole generation step: declaration block in, the two wrapper files
//! out.
use vstd::prelude::*;
use crate::decl::strings_view;
use crate::emit::{binding_text, emit_binding_file, emit_native_file, native_text};
use crate::parse::{ParseError, parse_block, parse_declarations, parse_fragments};
use crate::text::split_on;

verus! {

/// Names of the declarations that get no wrappers: symbols that this build
/// does not compile (the palette quantizer, the ABI-70-only dimension
/// helper) and the SIMD probes, which are internal to the library.
pub open spec fn skip_list() -> Seq<Seq<char>> {
    seq![
        "jpeg_new_colormap"@,
        "jpeg_calc_jpeg_dimensions"@,
        "jsimd_can_rgb_ycc"@,
        "jsimd_can_fdct_ifast"@,
        "jsimd_fdct_ifast"@,
    ]
}

/// The fixed list of declaration names that get no wrappers.
pub fn default_skip_list() -> (r: Vec<String>)
    ensures
        strings_view(r@) == skip_list(),
{
    let mut r: Vec<String> = Vec::new();
    r.push(String::from_str("jpeg_new_colormap"));
    r.push(String::from_str("jpeg_calc_jpeg_dimensions"));
    r.push(String::from_str("jsimd_can_rgb_ycc"));
    r.push(String::from_str("jsimd_can_fdct_ifast"));
    r.push(String::from_str("jsimd_fdct_ifast"));
    assert(strings_view(r@) =~= skip_list());
    r
}

/// The two generated texts for the declaration block `text`: the
/// binding-language file and the native file.
pub open spec fn generated(text: Seq<char>) -> Result<(Seq<char>, Seq<char>), ParseError> {
    match parse_block(text, skip_list()) {
        Ok(ds) => Ok((binding_text(ds), native_text(ds))),
        Err(e) => Err(e),
    }
}

/// Parses the declaration block `text`, drops the declarations on the fixed
/// skip list, and renders the binding-language file and the native file.
pub fn generate_wrappers(text: &str) -> (r: Result<(String, String), ParseError>)
    ensures
        match r {
            Ok((b, n)) => generated(text@) == Ok::<(Seq<char>, Seq<char>), ParseError>((b@, n@)),
            Err(e) => generated(text@) == Err::<(Seq<char>, Seq<char>), ParseError>(e),
        },
{
    let skip = default_skip_list();
    match parse_declarations(text, &skip) {
        Err(e) => Err(e),
        Ok(ds) => {
            let b = emit_binding_file(&ds);
            let n = emit_native_file(&ds);
            Ok((b, n))
        },
    }
}

proof fn lemma_fragments_skip(frags: Seq<Seq<char>>, skip: Seq<Seq<char>>)
    ensures
        parse_fragments(frags, skip) is Ok ==> forall|i: int|
            0 <= i < parse_fragments(frags, skip)->Ok_0.len() ==> !skip.contains(
                (#[trigger] parse_fragments(frags, skip)->Ok_0[i]).name,
            ),
    decreases frags.len(),
{
    if frags.len() > 0 {
        lemma_fragments_skip(frags.drop_last(), skip);
    }
}

/// A declaration whose name is on the skip list is never among the parsed
/// declarations, so neither generated text holds a wrapper for it: both
/// texts are rendered from exactly the declarations that remain.
pub proof fn lemma_skipped_never_emitted(text: Seq<char>, skip: Seq<Seq<char>>, name: Seq<char>)
    requires
        skip.contains(name),
    ensures
        parse_block(text, skip) is Ok ==> forall|i: int|
            0 <= i < parse_block(text, skip)->Ok_0.len() ==> (#[trigger] parse_block(
                text,
                skip,
            )->Ok_0[i]).name != name,
        skip == skip_list() && parse_block(text, skip) is Ok ==> generated(text) == Ok::<
            (Seq<char>, Seq<char>),
            ParseError,
        >(
            (
                binding_text(parse_block(text, skip)->Ok_0),
                native_text(parse_block(text, skip)->Ok_0),
            ),
        ),
{
    reveal_strlit("{");
    reveal_strlit("}");
    let open = crate::text::first_match(text, "{"@);
    let close = crate::text::last_match(text, "}"@);
    if !(open < 0 || close <= open) {
        lemma_fragments_skip(split_on(text.subrange(open + 1, close), ";"@), skip);
    }
}

/// Generation depends on the declaration text alone: running it again on
/// unchanged input yields byte-identical files, or the same error.
pub proof fn lemma_regeneration_identical(first: Seq<char>, second: Seq<char>)
    requires
        first == second,
    ensures
        generated(first) == generated(second),
{
}

} // verus!
