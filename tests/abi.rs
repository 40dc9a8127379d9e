use mozjpeg_sys::{
    jpeg_marker, msg_parm_union, J_COLOR_SPACE, J_DCT_METHOD, J_DITHER_MODE, DCTSIZE2,
    JBOOLEAN_TRELLIS_QUANT, JCP_FASTEST, JCP_MAX_COMPRESSION, JCS_RGB565, JCS_UNKNOWN, JCS_YCbCr,
    JDCT_DEFAULT, JDCT_FASTEST, JFLOAT_TRELLIS_DELTA_DC_WEIGHT, JINT_DC_SCAN_OPT_MODE,
};

#[test]
pub fn enum_32bit() {
    assert_eq!(JBOOLEAN_TRELLIS_QUANT.code() as u64, 0xC5122033);
}

#[test]
fn color_space_codes_follow_declaration_order() {
    assert_eq!(JCS_UNKNOWN.code(), 0);
    assert_eq!(JCS_YCbCr.code(), 3);
    assert_eq!(J_COLOR_SPACE::JCS_EXT_RGBX.code(), 7);
    assert_eq!(JCS_RGB565.code(), 16);
}

#[test]
fn dct_aliases() {
    assert_eq!(JDCT_DEFAULT, J_DCT_METHOD::JDCT_ISLOW);
    assert_eq!(JDCT_FASTEST, J_DCT_METHOD::JDCT_IFAST);
    assert_eq!(J_DCT_METHOD::JDCT_FLOAT.code(), 2);
    assert_eq!(J_DITHER_MODE::JDITHER_FS.code(), 2);
}

#[test]
fn parameter_identifiers() {
    assert_eq!(JFLOAT_TRELLIS_DELTA_DC_WEIGHT.code(), 0x13775453);
    assert_eq!(JINT_DC_SCAN_OPT_MODE.code(), 0x0BE7AD3C);
    assert_eq!(JCP_MAX_COMPRESSION.code(), 0x5D083AAD);
    assert_eq!(JCP_FASTEST.code(), 0x2AEA5CB4);
}

#[test]
fn marker_codes() {
    assert_eq!(jpeg_marker::APP0.code(), 0xE0);
    assert_eq!(jpeg_marker::COM.code(), 0xFE);
}

#[test]
fn message_parameters_start_zeroed() {
    let m = msg_parm_union::default();
    assert_eq!(m._bindgen_data_, [0u32; 20]);
    assert_eq!(DCTSIZE2, 64);
}

#[test]
fn tables_start_zeroed() {
    let q = mozjpeg_sys::JQUANT_TBL::default();
    assert_eq!(q.quantval, [0u16; 64]);
    assert_eq!(q.sent_table, 0);
    let h = mozjpeg_sys::JHUFF_TBL::default();
    assert_eq!(h.bits, [0u8; 17]);
    assert!(h.huffval.iter().all(|&b| b == 0));
    assert_eq!(h.sent_table, 0);
}

#[test]
fn scan_info_starts_zeroed() {
    let s = mozjpeg_sys::jpeg_scan_info::default();
    assert_eq!(s.comps_in_scan, 0);
    assert_eq!(s.component_index, [0i32; 4]);
    assert_eq!((s.Ss, s.Se, s.Ah, s.Al), (0, 0, 0, 0));
}

#[test]
fn component_info_starts_zeroed() {
    let c = mozjpeg_sys::jpeg_component_info::default();
    assert_eq!((c.component_id, c.component_index, c.h_samp_factor, c.v_samp_factor), (0, 0, 0, 0));
    assert_eq!((c.quant_tbl_no, c.dc_tbl_no, c.ac_tbl_no), (0, 0, 0));
    assert_eq!((c.width_in_blocks, c.height_in_blocks, c.downsampled_width, c.downsampled_height), (0, 0, 0, 0));
    assert_eq!((c.DCT_scaled_size, c.component_needed), (0, 0));
    assert_eq!((c.MCU_width, c.MCU_height, c.MCU_blocks, c.MCU_sample_width), (0, 0, 0, 0));
    assert_eq!((c.last_col_width, c.last_row_height), (0, 0));
}
