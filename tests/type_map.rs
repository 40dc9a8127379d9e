use mozjpeg_sys::native_type;

#[test]
fn table_types() {
    assert_eq!(native_type("c_void"), "void");
    assert_eq!(native_type("boolean"), "int");
    assert_eq!(native_type("u8"), "unsigned char");
    assert_eq!(native_type("c_int"), "int");
    assert_eq!(native_type("f32"), "float");
    assert_eq!(native_type("c_ulong"), "unsigned long");
    assert_eq!(native_type("c_uint"), "unsigned int");
    assert_eq!(native_type("usize"), "size_t");
    assert_eq!(native_type("JSAMPARRAY_MUT"), "JSAMPARRAY");
    assert_eq!(native_type("JSAMPIMAGE_MUT"), "JSAMPIMAGE");
}

#[test]
fn unknown_names_pass_through() {
    assert_eq!(native_type("jpeg_marker_parser_method"), "jpeg_marker_parser_method");
    assert_eq!(native_type("  J_COLOR_SPACE "), "J_COLOR_SPACE");
}

#[test]
fn one_level_of_indirection() {
    assert_eq!(native_type("&mut jpeg_compress_struct"), "jpeg_compress_struct*");
    assert_eq!(native_type("&jpeg_decompress_struct"), "jpeg_decompress_struct const*");
    assert_eq!(native_type("*const u8"), "unsigned char const*");
    assert_eq!(native_type("*mut c_void"), "void*");
}

#[test]
fn two_levels_of_indirection() {
    assert_eq!(native_type("*mut *mut u8"), "unsigned char**");
    assert_eq!(native_type("*const *mut u8"), "unsigned char* const*");
    assert_eq!(native_type("*mut *const u8"), "unsigned char const**");
}

#[test]
fn three_levels_of_indirection() {
    assert_eq!(native_type("*const *const *mut JSAMPARRAY_MUT"), "JSAMPARRAY* const* const*");
    assert_eq!(native_type("&mut *mut *mut jvirt_barray_control"), "jvirt_barray_control***");
}

#[test]
fn lifetimes_are_dropped() {
    assert_eq!(native_type("&'a mut jpeg_error_mgr"), "jpeg_error_mgr*");
    assert_eq!(native_type("&'static c_int"), "int const*");
}
