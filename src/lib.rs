//! Build-time generator of exception-safe wrappers around the mozjpeg C API,
//! plus the plain enumerations that mirror the library's C headers.
#![allow(non_camel_case_types)]
#![allow(non_snake_case)]

pub mod abi;
pub mod decl;
pub mod emit;
pub mod generate;
pub mod parse;
pub mod text;
pub mod type_map;

pub use abi::J_DCT_METHOD::JDCT_IFAST as JDCT_FASTEST;
pub use abi::J_DCT_METHOD::JDCT_ISLOW as JDCT_DEFAULT;
pub use abi::{
    jpeg_component_info, jpeg_marker, jpeg_scan_info, msg_parm_union, JHUFF_TBL, JQUANT_TBL, J_BOOLEAN_PARAM, J_COLOR_SPACE, J_DCT_METHOD, J_DITHER_MODE,
    J_FLOAT_PARAM, J_INT_PARAM, JINT_COMPRESS_PROFILE_VALUE,
};
pub use abi::J_BOOLEAN_PARAM::{
    JBOOLEAN_OPTIMIZE_SCANS, JBOOLEAN_OVERSHOOT_DERINGING, JBOOLEAN_TRELLIS_EOB_OPT,
    JBOOLEAN_TRELLIS_QUANT, JBOOLEAN_TRELLIS_QUANT_DC, JBOOLEAN_TRELLIS_Q_OPT,
    JBOOLEAN_USE_LAMBDA_WEIGHT_TBL, JBOOLEAN_USE_SCANS_IN_TRELLIS,
};
pub use abi::J_FLOAT_PARAM::{
    JFLOAT_LAMBDA_LOG_SCALE1, JFLOAT_LAMBDA_LOG_SCALE2, JFLOAT_TRELLIS_DELTA_DC_WEIGHT,
};
pub use abi::J_INT_PARAM::{
    JINT_BASE_QUANT_TBL_IDX, JINT_COMPRESS_PROFILE, JINT_DC_SCAN_OPT_MODE,
    JINT_TRELLIS_FREQ_SPLIT, JINT_TRELLIS_NUM_LOOPS,
};
pub use abi::JINT_COMPRESS_PROFILE_VALUE::{JCP_FASTEST, JCP_MAX_COMPRESSION};
pub use abi::J_COLOR_SPACE::{
    JCS_CMYK, JCS_EXT_ABGR, JCS_EXT_ARGB, JCS_EXT_BGR, JCS_EXT_BGRA, JCS_EXT_BGRX, JCS_EXT_RGB,
    JCS_EXT_RGBA, JCS_EXT_RGBX, JCS_EXT_XBGR, JCS_EXT_XRGB, JCS_GRAYSCALE, JCS_RGB, JCS_RGB565,
    JCS_UNKNOWN, JCS_YCCK, JCS_YCbCr,
};
pub use abi::{DCTSIZE, DCTSIZE2, JPEG_LIB_VERSION, JPOOL_IMAGE, JPOOL_PERMANENT, NUM_QUANT_TBLS};
pub use decl::{Argument, Declaration};
pub use emit::{emit_binding_file, emit_binding_wrapper, emit_native_file, emit_native_wrapper};
pub use generate::{default_skip_list, generate_wrappers};
pub use parse::{parse_declarations, ParseError};
pub use type_map::native_type;
