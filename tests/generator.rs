use mozjpeg_sys::{
    default_skip_list, emit_binding_wrapper, emit_native_wrapper, generate_wrappers,
    parse_declarations, ParseError,
};

const BLOCK: &str = "block {
    /// Write a marker with its payload.
    #[deprecated]
    pub fn jpeg_write_marker(cinfo: &mut jpeg_compress_struct, marker: c_int, dataptr: *const u8, datalen: c_uint);
    pub fn jpeg_std_error<'a>(err: &'a mut jpeg_error_mgr) -> &'a mut jpeg_error_mgr;
    fn jpeg_quality_scaling(
        quality: c_int,
    ) -> c_int;
}
";

fn parse(text: &str) -> Result<Vec<mozjpeg_sys::Declaration>, ParseError> {
    parse_declarations(text, &default_skip_list())
}

#[test]
fn parses_every_field() {
    let ds = parse(BLOCK).unwrap();
    assert_eq!(ds.len(), 3);
    let d = &ds[0];
    assert_eq!(d.name, "jpeg_write_marker");
    assert!(d.is_public);
    assert_eq!(d.doc_lines, vec!["/// Write a marker with its payload.".to_string()]);
    assert_eq!(d.attribute_lines, vec!["#[deprecated]".to_string()]);
    let names: Vec<&str> = d.arguments.iter().map(|a| a.name.as_str()).collect();
    let types: Vec<&str> = d.arguments.iter().map(|a| a.ty.as_str()).collect();
    assert_eq!(names, vec!["cinfo", "marker", "dataptr", "datalen"]);
    assert_eq!(types, vec!["&mut jpeg_compress_struct", "c_int", "*const u8", "c_uint"]);
    assert_eq!(d.return_type, None);
    assert_eq!(d.lifetime, None);

    let e = &ds[1];
    assert_eq!(e.name, "jpeg_std_error");
    assert_eq!(e.lifetime, Some("'a".to_string()));
    assert_eq!(e.return_type, Some("&'a mut jpeg_error_mgr".to_string()));
    assert_eq!(e.arguments[0].ty, "&'a mut jpeg_error_mgr");

    let q = &ds[2];
    assert_eq!(q.name, "jpeg_quality_scaling");
    assert!(!q.is_public);
    assert!(q.doc_lines.is_empty());
    assert_eq!(q.arguments.len(), 1);
    assert_eq!(q.arguments[0].name, "quality");
    assert_eq!(q.return_type, Some("c_int".to_string()));
}

#[test]
fn argument_order_is_kept_in_both_calls() {
    let ds = parse(BLOCK).unwrap();
    let b = emit_binding_wrapper(&ds[0]);
    let n = emit_native_wrapper(&ds[0]);
    assert!(b.contains("jpeg_write_marker_wrapper(cinfo, marker, dataptr, datalen)"));
    assert!(n.contains("jpeg_write_marker(cinfo, marker, dataptr, datalen)"));
}

#[test]
fn void_declaration_wrappers() {
    let ds = parse("{ pub fn jpeg_set_quality(cinfo: &mut jpeg_compress_struct, quality: c_int, force_baseline: boolean); }").unwrap();
    assert_eq!(
        emit_binding_wrapper(&ds[0]),
        "pub unsafe fn jpeg_set_quality(cinfo: &mut jpeg_compress_struct, quality: c_int, force_baseline: boolean) {\n    extern \"C-unwind\" {\n        fn jpeg_set_quality_wrapper(cinfo: &mut jpeg_compress_struct, quality: c_int, force_baseline: boolean) -> WrapperResult<()>;\n    }\n    jpeg_set_quality_wrapper(cinfo, quality, force_baseline).unwrap_or_raise()\n}\n"
    );
    assert_eq!(
        emit_native_wrapper(&ds[0]),
        "extern \"C\" wrapper_result<void> jpeg_set_quality_wrapper(jpeg_compress_struct* cinfo, int quality, int force_baseline) {\n    try {\n        jpeg_set_quality(cinfo, quality, force_baseline);\n        return wrapper_result<void>::ok();\n    } catch (const wrapper_error &e) {\n        return wrapper_result<void>::err(e.payload());\n    }\n}\n"
    );
}

#[test]
fn value_returning_declaration_wrappers() {
    let ds = parse(BLOCK).unwrap();
    assert_eq!(
        emit_binding_wrapper(&ds[1]),
        "pub unsafe fn jpeg_std_error<'a>(err: &'a mut jpeg_error_mgr) -> &'a mut jpeg_error_mgr {\n    extern \"C-unwind\" {\n        fn jpeg_std_error_wrapper<'a>(err: &'a mut jpeg_error_mgr) -> WrapperResult<&'a mut jpeg_error_mgr>;\n    }\n    jpeg_std_error_wrapper(err).unwrap_or_raise()\n}\n"
    );
    assert_eq!(
        emit_native_wrapper(&ds[1]),
        "extern \"C\" wrapper_result<jpeg_error_mgr*> jpeg_std_error_wrapper(jpeg_error_mgr* err) {\n    try {\n        return wrapper_result<jpeg_error_mgr*>::ok(jpeg_std_error(err));\n    } catch (const wrapper_error &e) {\n        return wrapper_result<jpeg_error_mgr*>::err(e.payload());\n    }\n}\n"
    );
}

#[test]
fn doc_and_attribute_lines_precede_binding_wrapper() {
    let ds = parse(BLOCK).unwrap();
    let b = emit_binding_wrapper(&ds[0]);
    assert!(b.starts_with("/// Write a marker with its payload.\n#[deprecated]\npub unsafe fn jpeg_write_marker("));
    let n = emit_native_wrapper(&ds[0]);
    assert!(!n.contains("///"));
    assert!(!n.contains("#[deprecated]"));
}

#[test]
fn skip_list_declarations_get_no_wrappers() {
    let text = "{\n    pub fn jpeg_new_colormap(cinfo: &mut jpeg_decompress_struct);\n    pub fn jpeg_finish_output(cinfo: &mut jpeg_decompress_struct) -> boolean;\n}";
    let ds = parse(text).unwrap();
    assert_eq!(ds.len(), 1);
    assert_eq!(ds[0].name, "jpeg_finish_output");
    let (b, n) = generate_wrappers(text).unwrap();
    assert!(!b.contains("jpeg_new_colormap"));
    assert!(!n.contains("jpeg_new_colormap"));
    assert!(b.contains("jpeg_finish_output_wrapper"));
    assert!(n.contains("jpeg_finish_output_wrapper"));
}

#[test]
fn a_custom_skip_list_is_honoured() {
    let skip = vec!["jpeg_std_error".to_string()];
    let ds = parse_declarations(BLOCK, &skip).unwrap();
    let names: Vec<&str> = ds.iter().map(|d| d.name.as_str()).collect();
    assert_eq!(names, vec!["jpeg_write_marker", "jpeg_quality_scaling"]);
}

#[test]
fn regeneration_is_byte_identical() {
    let first = generate_wrappers(BLOCK).unwrap();
    let second = generate_wrappers(BLOCK).unwrap();
    assert_eq!(first, second);
}

#[test]
fn generated_files_hold_one_wrapper_per_declaration() {
    let (b, n) = generate_wrappers(BLOCK).unwrap();
    assert_eq!(b.matches("unwrap_or_raise").count(), 3);
    assert_eq!(n.matches("catch (const wrapper_error &e)").count(), 3);
    assert!(n.starts_with("#include <stddef.h>\n"));
    assert!(n.contains("template <>\nstruct wrapper_result<void>"));
    assert!(b.ends_with("}\n\n"));
}

#[test]
fn empty_block_generates_only_the_preamble() {
    let (b, n) = generate_wrappers("{\n}").unwrap();
    assert_eq!(b, "");
    assert!(n.ends_with("};\n\n"));
}

#[test]
fn trailing_comma_and_blank_fragments_are_ignored() {
    let ds = parse("{ fn f(a: u8, b: *mut u8,); ; }").unwrap();
    assert_eq!(ds.len(), 1);
    assert_eq!(ds[0].arguments.len(), 2);
    assert_eq!(ds[0].arguments[1].ty, "*mut u8");
}

#[test]
fn path_types_keep_their_colons() {
    let ds = parse("{ fn f(a: std::os::raw::c_int); }").unwrap();
    assert_eq!(ds[0].arguments[0].name, "a");
    assert_eq!(ds[0].arguments[0].ty, "std::os::raw::c_int");
}

#[test]
fn errors_for_malformed_blocks() {
    assert_eq!(parse("pub fn f();").err(), Some(ParseError::UnbalancedBraces));
    assert_eq!(parse("} fn f(); {").err(), Some(ParseError::UnbalancedBraces));
    assert_eq!(parse("{ pub f(); }").err(), Some(ParseError::MissingFnKeyword));
    assert_eq!(parse("{ fn (a: u8); }").err(), Some(ParseError::MissingName));
    assert_eq!(parse("{ fn f<'a(a: u8); }").err(), Some(ParseError::UnclosedGenerics));
    assert_eq!(parse("{ fn f; }").err(), Some(ParseError::UnbalancedParens));
    assert_eq!(parse("{ fn f(a: u8; }").err(), Some(ParseError::UnbalancedParens));
    assert_eq!(parse("{ fn f(a u8); }").err(), Some(ParseError::MissingColon));
    assert_eq!(parse("{ fn f(); fn f(a: u8); }").err(), Some(ParseError::DuplicateName));
    assert_eq!(generate_wrappers("{ fn f(a u8); }").err(), Some(ParseError::MissingColon));
}

#[test]
fn first_error_in_text_order_wins() {
    assert_eq!(parse("{ fn f(a u8); pub g(); }").err(), Some(ParseError::MissingColon));
    assert_eq!(parse("{ pub g(); fn f(a u8); }").err(), Some(ParseError::MissingFnKeyword));
}

const FFI_BLOCK: &str = "extern \"C\" {
    pub fn jpeg_std_error<'a>(err: &'a mut jpeg_error_mgr) -> *mut jpeg_error_mgr;
    pub fn jpeg_CreateCompress(cinfo: *mut jpeg_compress_struct, version: c_int, structsize: usize);
    pub fn jpeg_CreateDecompress(
        cinfo: *mut jpeg_decompress_struct,
        version: c_int,
        structsize: usize,
    );
    pub fn jpeg_destroy_compress(cinfo: &mut jpeg_compress_struct);
    pub fn jpeg_destroy_decompress(cinfo: &mut jpeg_decompress_struct);
    pub fn jpeg_stdio_dest(cinfo: &mut jpeg_compress_struct, outfile: *mut FILE);
    pub fn jpeg_stdio_src(cinfo: &mut jpeg_decompress_struct, infile: *mut FILE);
    pub fn jpeg_mem_dest(
        cinfo: &mut jpeg_compress_struct,
        outbuffer: *mut *mut u8,
        outsize: *mut c_ulong,
    );
    pub fn jpeg_mem_src(cinfo: &mut jpeg_decompress_struct, inbuffer: *const u8, insize: c_ulong);
    pub fn jpeg_set_defaults(cinfo: &mut jpeg_compress_struct);
    pub fn jpeg_set_colorspace(cinfo: &mut jpeg_compress_struct, colorspace: J_COLOR_SPACE);
    pub fn jpeg_default_colorspace(cinfo: &mut jpeg_compress_struct);
    pub fn jpeg_set_quality(
        cinfo: &mut jpeg_compress_struct,
        quality: c_int,
        force_baseline: boolean,
    );
    pub fn jpeg_set_linear_quality(
        cinfo: &mut jpeg_compress_struct,
        scale_factor: c_int,
        force_baseline: boolean,
    );
    pub fn jpeg_add_quant_table(
        cinfo: &mut jpeg_compress_struct,
        which_tbl: c_int,
        basic_table: *const c_uint,
        scale_factor: c_int,
        force_baseline: boolean,
    );
    pub fn jpeg_quality_scaling(quality: c_int) -> c_int;
    pub fn jpeg_float_quality_scaling(quality: f32) -> f32;
    pub fn jpeg_simple_progression(cinfo: &mut jpeg_compress_struct);
    pub fn jpeg_suppress_tables(cinfo: &mut jpeg_compress_struct, suppress: boolean);
    pub fn jpeg_alloc_quant_table(cinfo: &mut jpeg_common_struct) -> *mut JQUANT_TBL;
    pub fn jpeg_alloc_huff_table(cinfo: &mut jpeg_common_struct) -> *mut JHUFF_TBL;
    pub fn jpeg_start_compress(cinfo: &mut jpeg_compress_struct, write_all_tables: boolean);
    pub fn jpeg_write_scanlines(
        cinfo: &mut jpeg_compress_struct,
        scanlines: JSAMPARRAY,
        num_lines: JDIMENSION,
    ) -> JDIMENSION;
    pub fn jpeg_finish_compress(cinfo: &mut jpeg_compress_struct);
    pub fn jpeg_write_raw_data(
        cinfo: &mut jpeg_compress_struct,
        data: JSAMPIMAGE,
        num_lines: JDIMENSION,
    ) -> JDIMENSION;
    pub fn jpeg_write_marker(
        cinfo: &mut jpeg_compress_struct,
        marker: c_int,
        dataptr: *const u8,
        datalen: c_uint,
    );
    pub fn jpeg_write_m_header(cinfo: &mut jpeg_compress_struct, marker: c_int, datalen: c_uint);
    pub fn jpeg_write_m_byte(cinfo: &mut jpeg_compress_struct, val: c_int);
    pub fn jpeg_write_tables(cinfo: &mut jpeg_compress_struct);
    pub fn jpeg_read_header(cinfo: &mut jpeg_decompress_struct, require_image: boolean) -> c_int;
    pub fn jpeg_start_decompress(cinfo: &mut jpeg_decompress_struct) -> boolean;
    pub fn jpeg_read_scanlines(
        cinfo: &mut jpeg_decompress_struct,
        scanlines: JSAMPARRAY_MUT,
        max_lines: JDIMENSION,
    ) -> JDIMENSION;
    pub fn jpeg_finish_decompress(cinfo: &mut jpeg_decompress_struct) -> boolean;
    pub fn jpeg_read_raw_data(
        cinfo: &mut jpeg_decompress_struct,
        data: JSAMPIMAGE_MUT,
        max_lines: JDIMENSION,
    ) -> JDIMENSION;
    pub fn jpeg_has_multiple_scans(cinfo: &mut jpeg_decompress_struct) -> boolean;
    pub fn jpeg_start_output(cinfo: &mut jpeg_decompress_struct, scan_number: c_int) -> boolean;
    pub fn jpeg_finish_output(cinfo: &mut jpeg_decompress_struct) -> boolean;
    pub fn jpeg_input_complete(cinfo: &mut jpeg_decompress_struct) -> boolean;
    #[deprecated]
    pub fn jpeg_new_colormap(cinfo: &mut jpeg_decompress_struct);
    pub fn jpeg_consume_input(cinfo: &mut jpeg_decompress_struct) -> c_int;
    pub fn jpeg_float_add_quant_table(
        cinfo: &mut jpeg_compress_struct,
        which_tbl: c_int,
        basic_table: *const c_uint,
        scale_factor: f32,
        force_baseline: boolean,
    );

    /// Precalculate JPEG dimensions for current compression parameters
    pub fn jpeg_save_markers(
        cinfo: &mut jpeg_decompress_struct,
        marker_code: c_int,
        length_limit: c_uint,
    );
    pub fn jpeg_set_marker_processor(
        cinfo: &mut jpeg_decompress_struct,
        marker_code: c_int,
        routine: jpeg_marker_parser_method,
    );
    pub fn jpeg_read_coefficients(
        cinfo: &mut jpeg_decompress_struct,
    ) -> *mut *mut jvirt_barray_control;
    pub fn jpeg_write_coefficients(
        cinfo: &mut jpeg_compress_struct,
        coef_arrays: *mut *mut jvirt_barray_control,
    );
    pub fn jpeg_copy_critical_parameters(
        srcinfo: &mut jpeg_decompress_struct,
        dstinfo: &mut jpeg_compress_struct,
    );
    pub fn jpeg_abort_compress(cinfo: &mut jpeg_compress_struct);
    pub fn jpeg_abort_decompress(cinfo: &mut jpeg_decompress_struct);
    pub fn jpeg_resync_to_restart(cinfo: &mut jpeg_decompress_struct, desired: c_int) -> boolean;
    pub fn jpeg_c_bool_param_supported(
        cinfo: &mut jpeg_compress_struct,
        param: J_BOOLEAN_PARAM,
    ) -> boolean;
    pub fn jpeg_c_set_bool_param(
        cinfo: &mut jpeg_compress_struct,
        param: J_BOOLEAN_PARAM,
        value: boolean,
    );
    pub fn jpeg_c_get_bool_param(cinfo: &mut jpeg_compress_struct, param: J_BOOLEAN_PARAM) -> boolean;
    pub fn jpeg_c_float_param_supported(
        cinfo: &mut jpeg_compress_struct,
        param: J_FLOAT_PARAM,
    ) -> boolean;
    pub fn jpeg_c_set_float_param(
        cinfo: &mut jpeg_compress_struct,
        param: J_FLOAT_PARAM,
        value: f32,
    );
    pub fn jpeg_c_get_float_param(cinfo: &mut jpeg_compress_struct, param: J_FLOAT_PARAM) -> f32;
    pub fn jpeg_c_int_param_supported(cinfo: &mut jpeg_compress_struct, param: J_INT_PARAM) -> boolean;
    pub fn jpeg_c_set_int_param(cinfo: &mut jpeg_compress_struct, param: J_INT_PARAM, value: c_int);
    pub fn jpeg_c_get_int_param(cinfo: &mut jpeg_compress_struct, param: J_INT_PARAM) -> c_int;
}
";

#[test]
fn wraps_the_whole_library_interface() {
    let ds = parse(FFI_BLOCK).unwrap();
    assert_eq!(ds.len(), 57);
    assert_eq!(ds[0].name, "jpeg_std_error");
    assert_eq!(ds[0].lifetime, Some("'a".to_string()));
    assert_eq!(ds[56].name, "jpeg_c_get_int_param");
    assert!(ds.iter().all(|d| d.name != "jpeg_new_colormap"));
    let marker = ds.iter().find(|d| d.name == "jpeg_save_markers").unwrap();
    assert_eq!(marker.doc_lines, vec!["/// Precalculate JPEG dimensions for current compression parameters".to_string()]);
    let mem_dest = ds.iter().find(|d| d.name == "jpeg_mem_dest").unwrap();
    let types: Vec<&str> = mem_dest.arguments.iter().map(|a| a.ty.as_str()).collect();
    assert_eq!(types, vec!["&mut jpeg_compress_struct", "*mut *mut u8", "*mut c_ulong"]);

    let (b, n) = generate_wrappers(FFI_BLOCK).unwrap();
    assert_eq!(b.matches(".unwrap_or_raise()").count(), 57);
    assert_eq!(n.matches("catch (const wrapper_error &e)").count(), 57);
    assert!(n.contains("extern \"C\" wrapper_result<void> jpeg_mem_dest_wrapper(jpeg_compress_struct* cinfo, unsigned char** outbuffer, unsigned long* outsize) {\n"));
    assert!(n.contains("extern \"C\" wrapper_result<float> jpeg_c_get_float_param_wrapper(jpeg_compress_struct* cinfo, J_FLOAT_PARAM param) {\n"));
    assert!(b.contains("pub unsafe fn jpeg_read_scanlines(cinfo: &mut jpeg_decompress_struct, scanlines: JSAMPARRAY_MUT, max_lines: JDIMENSION) -> JDIMENSION {\n"));
    assert!(!b.contains("jpeg_new_colormap"));
    assert!(!n.contains("jpeg_new_colormap"));
}

#[test]
fn parentheses_inside_arguments_are_rejected() {
    assert_eq!(parse("{ fn f(a: (u8)); }").err(), Some(ParseError::UnbalancedParens));
    assert_eq!(parse("{ fn f(a: u8, b: fn(u8)); }").err(), Some(ParseError::UnbalancedParens));
    assert_eq!(parse("{ fn f(a: u8) -> c_int; }").unwrap()[0].arguments.len(), 1);
}
