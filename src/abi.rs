//! Plain-value mirrors of the enumerations and constants of the mozjpeg C
//! headers. Each enumeration gives its C value through `code`.
use vstd::prelude::*;

verus! {

/// The basic DCT block is 8x8 samples.
pub const DCTSIZE: usize = 8;

/// DCTSIZE squared.
pub const DCTSIZE2: usize = DCTSIZE * DCTSIZE;

/// Quantization tables are numbered 0..3.
pub const NUM_QUANT_TBLS: usize = 4;

/// Memory pool that lasts until the master record is destroyed.
pub const JPOOL_PERMANENT: i32 = 0;

/// Memory pool that lasts until done with the image or datastream.
pub const JPOOL_IMAGE: i32 = 1;

/// ABI version of the library that the declarations describe.
pub const JPEG_LIB_VERSION: i32 = 62;

/// Marker codes that an application may save or write.
#[derive(Debug, Clone, Copy, PartialEq, Eq, Structural)]
pub enum jpeg_marker {
    /// APP0 marker code
    APP0,
    /// COM marker code
    COM,
}

impl jpeg_marker {
    pub open spec fn spec_code(self) -> u32 {
        match self {
            jpeg_marker::APP0 => 0xE0,
            jpeg_marker::COM => 0xFE,
        }
    }

    pub fn code(self) -> (r: u32)
        ensures
            r == self.spec_code(),
    {
        match self {
            jpeg_marker::APP0 => 0xE0,
            jpeg_marker::COM => 0xFE,
        }
    }
}

/// Known color spaces.
#[derive(Debug, Clone, Copy, PartialEq, Eq, Structural)]
pub enum J_COLOR_SPACE {
    /// error/unspecified
    JCS_UNKNOWN,
    /// monochrome
    JCS_GRAYSCALE,
    /// red/green/blue
    JCS_RGB,
    /// Y/Cb/Cr (also known as YUV)
    JCS_YCbCr,
    /// C/M/Y/K
    JCS_CMYK,
    /// Y/Cb/Cr/K
    JCS_YCCK,
    /// red/green/blue
    JCS_EXT_RGB,
    /// red/green/blue/x
    JCS_EXT_RGBX,
    /// blue/green/red
    JCS_EXT_BGR,
    /// blue/green/red/x
    JCS_EXT_BGRX,
    /// x/blue/green/red
    JCS_EXT_XBGR,
    /// x/red/green/blue
    JCS_EXT_XRGB,
    /// red/green/blue/alpha
    JCS_EXT_RGBA,
    /// blue/green/red/alpha
    JCS_EXT_BGRA,
    /// alpha/blue/green/red
    JCS_EXT_ABGR,
    /// alpha/red/green/blue
    JCS_EXT_ARGB,
    /// 5-bit red/6-bit green/5-bit blue
    JCS_RGB565,
}

impl J_COLOR_SPACE {
    /// Position of the color space in the C enumeration.
    pub open spec fn spec_code(self) -> u32 {
        match self {
            J_COLOR_SPACE::JCS_UNKNOWN => 0,
            J_COLOR_SPACE::JCS_GRAYSCALE => 1,
            J_COLOR_SPACE::JCS_RGB => 2,
            J_COLOR_SPACE::JCS_YCbCr => 3,
            J_COLOR_SPACE::JCS_CMYK => 4,
            J_COLOR_SPACE::JCS_YCCK => 5,
            J_COLOR_SPACE::JCS_EXT_RGB => 6,
            J_COLOR_SPACE::JCS_EXT_RGBX => 7,
            J_COLOR_SPACE::JCS_EXT_BGR => 8,
            J_COLOR_SPACE::JCS_EXT_BGRX => 9,
            J_COLOR_SPACE::JCS_EXT_XBGR => 10,
            J_COLOR_SPACE::JCS_EXT_XRGB => 11,
            J_COLOR_SPACE::JCS_EXT_RGBA => 12,
            J_COLOR_SPACE::JCS_EXT_BGRA => 13,
            J_COLOR_SPACE::JCS_EXT_ABGR => 14,
            J_COLOR_SPACE::JCS_EXT_ARGB => 15,
            J_COLOR_SPACE::JCS_RGB565 => 16,
        }
    }

    pub fn code(self) -> (r: u32)
        ensures
            r == self.spec_code(),
    {
        match self {
            J_COLOR_SPACE::JCS_UNKNOWN => 0,
            J_COLOR_SPACE::JCS_GRAYSCALE => 1,
            J_COLOR_SPACE::JCS_RGB => 2,
            J_COLOR_SPACE::JCS_YCbCr => 3,
            J_COLOR_SPACE::JCS_CMYK => 4,
            J_COLOR_SPACE::JCS_YCCK => 5,
            J_COLOR_SPACE::JCS_EXT_RGB => 6,
            J_COLOR_SPACE::JCS_EXT_RGBX => 7,
            J_COLOR_SPACE::JCS_EXT_BGR => 8,
            J_COLOR_SPACE::JCS_EXT_BGRX => 9,
            J_COLOR_SPACE::JCS_EXT_XBGR => 10,
            J_COLOR_SPACE::JCS_EXT_XRGB => 11,
            J_COLOR_SPACE::JCS_EXT_RGBA => 12,
            J_COLOR_SPACE::JCS_EXT_BGRA => 13,
            J_COLOR_SPACE::JCS_EXT_ABGR => 14,
            J_COLOR_SPACE::JCS_EXT_ARGB => 15,
            J_COLOR_SPACE::JCS_RGB565 => 16,
        }
    }
}

/// DCT/IDCT algorithm options.
#[derive(Debug, Clone, Copy, PartialEq, Eq, Structural)]
pub enum J_DCT_METHOD {
    JDCT_ISLOW,
    JDCT_IFAST,
    JDCT_FLOAT,
}

impl J_DCT_METHOD {
    pub open spec fn spec_code(self) -> u32 {
        match self {
            J_DCT_METHOD::JDCT_ISLOW => 0,
            J_DCT_METHOD::JDCT_IFAST => 1,
            J_DCT_METHOD::JDCT_FLOAT => 2,
        }
    }

    pub fn code(self) -> (r: u32)
        ensures
            r == self.spec_code(),
    {
        match self {
            J_DCT_METHOD::JDCT_ISLOW => 0,
            J_DCT_METHOD::JDCT_IFAST => 1,
            J_DCT_METHOD::JDCT_FLOAT => 2,
        }
    }
}

/// Dithering options for decompression.
#[derive(Debug, Clone, Copy, PartialEq, Eq, Structural)]
pub enum J_DITHER_MODE {
    JDITHER_NONE,
    JDITHER_ORDERED,
    JDITHER_FS,
}

impl J_DITHER_MODE {
    pub open spec fn spec_code(self) -> u32 {
        match self {
            J_DITHER_MODE::JDITHER_NONE => 0,
            J_DITHER_MODE::JDITHER_ORDERED => 1,
            J_DITHER_MODE::JDITHER_FS => 2,
        }
    }

    pub fn code(self) -> (r: u32)
        ensures
            r == self.spec_code(),
    {
        match self {
            J_DITHER_MODE::JDITHER_NONE => 0,
            J_DITHER_MODE::JDITHER_ORDERED => 1,
            J_DITHER_MODE::JDITHER_FS => 2,
        }
    }
}

/// 32-bit identifiers of the boolean parameters reached through
/// `jpeg_c_get_bool_param` and `jpeg_c_set_bool_param`; they extend the API
/// without breaking the ABI.
#[derive(Debug, Clone, Copy, PartialEq, Eq, Structural)]
pub enum J_BOOLEAN_PARAM {
    /// TRUE=optimize progressive coding scans
    JBOOLEAN_OPTIMIZE_SCANS,
    /// TRUE=use trellis quantization
    JBOOLEAN_TRELLIS_QUANT,
    /// TRUE=use trellis quant for DC coefficient
    JBOOLEAN_TRELLIS_QUANT_DC,
    /// TRUE=optimize for sequences of EOB
    JBOOLEAN_TRELLIS_EOB_OPT,
    /// TRUE=use lambda weighting table
    JBOOLEAN_USE_LAMBDA_WEIGHT_TBL,
    /// TRUE=use scans in trellis optimization
    JBOOLEAN_USE_SCANS_IN_TRELLIS,
    /// TRUE=optimize quant table in trellis loop
    JBOOLEAN_TRELLIS_Q_OPT,
    /// TRUE=preprocess input to reduce ringing of edges on white background
    JBOOLEAN_OVERSHOOT_DERINGING,
}

impl J_BOOLEAN_PARAM {
    pub open spec fn spec_code(self) -> u32 {
        match self {
            J_BOOLEAN_PARAM::JBOOLEAN_OPTIMIZE_SCANS => 0x680C061E,
            J_BOOLEAN_PARAM::JBOOLEAN_TRELLIS_QUANT => 0xC5122033,
            J_BOOLEAN_PARAM::JBOOLEAN_TRELLIS_QUANT_DC => 0x339D4C0C,
            J_BOOLEAN_PARAM::JBOOLEAN_TRELLIS_EOB_OPT => 0xD7F73780,
            J_BOOLEAN_PARAM::JBOOLEAN_USE_LAMBDA_WEIGHT_TBL => 0x339DB65F,
            J_BOOLEAN_PARAM::JBOOLEAN_USE_SCANS_IN_TRELLIS => 0xFD841435,
            J_BOOLEAN_PARAM::JBOOLEAN_TRELLIS_Q_OPT => 0xE12AE269,
            J_BOOLEAN_PARAM::JBOOLEAN_OVERSHOOT_DERINGING => 0x3F4BBBF9,
        }
    }

    pub fn code(self) -> (r: u32)
        ensures
            r == self.spec_code(),
    {
        match self {
            J_BOOLEAN_PARAM::JBOOLEAN_OPTIMIZE_SCANS => 0x680C061E,
            J_BOOLEAN_PARAM::JBOOLEAN_TRELLIS_QUANT => 0xC5122033,
            J_BOOLEAN_PARAM::JBOOLEAN_TRELLIS_QUANT_DC => 0x339D4C0C,
            J_BOOLEAN_PARAM::JBOOLEAN_TRELLIS_EOB_OPT => 0xD7F73780,
            J_BOOLEAN_PARAM::JBOOLEAN_USE_LAMBDA_WEIGHT_TBL => 0x339DB65F,
            J_BOOLEAN_PARAM::JBOOLEAN_USE_SCANS_IN_TRELLIS => 0xFD841435,
            J_BOOLEAN_PARAM::JBOOLEAN_TRELLIS_Q_OPT => 0xE12AE269,
            J_BOOLEAN_PARAM::JBOOLEAN_OVERSHOOT_DERINGING => 0x3F4BBBF9,
        }
    }
}

/// 32-bit identifiers of the floating-point parameters.
#[derive(Debug, Clone, Copy, PartialEq, Eq, Structural)]
pub enum J_FLOAT_PARAM {
    JFLOAT_LAMBDA_LOG_SCALE1,
    JFLOAT_LAMBDA_LOG_SCALE2,
    JFLOAT_TRELLIS_DELTA_DC_WEIGHT,
}

impl J_FLOAT_PARAM {
    pub open spec fn spec_code(self) -> u32 {
        match self {
            J_FLOAT_PARAM::JFLOAT_LAMBDA_LOG_SCALE1 => 0x5B61A599,
            J_FLOAT_PARAM::JFLOAT_LAMBDA_LOG_SCALE2 => 0xB9BBAE03,
            J_FLOAT_PARAM::JFLOAT_TRELLIS_DELTA_DC_WEIGHT => 0x13775453,
        }
    }

    pub fn code(self) -> (r: u32)
        ensures
            r == self.spec_code(),
    {
        match self {
            J_FLOAT_PARAM::JFLOAT_LAMBDA_LOG_SCALE1 => 0x5B61A599,
            J_FLOAT_PARAM::JFLOAT_LAMBDA_LOG_SCALE2 => 0xB9BBAE03,
            J_FLOAT_PARAM::JFLOAT_TRELLIS_DELTA_DC_WEIGHT => 0x13775453,
        }
    }
}

/// 32-bit identifiers of the integer parameters.
#[derive(Debug, Clone, Copy, PartialEq, Eq, Structural)]
pub enum J_INT_PARAM {
    /// compression profile
    JINT_COMPRESS_PROFILE,
    /// splitting point for frequency in trellis quantization
    JINT_TRELLIS_FREQ_SPLIT,
    /// number of trellis loops
    JINT_TRELLIS_NUM_LOOPS,
    /// base quantization table index
    JINT_BASE_QUANT_TBL_IDX,
    /// DC scan optimization mode
    JINT_DC_SCAN_OPT_MODE,
}

impl J_INT_PARAM {
    pub open spec fn spec_code(self) -> u32 {
        match self {
            J_INT_PARAM::JINT_COMPRESS_PROFILE => 0xE9918625,
            J_INT_PARAM::JINT_TRELLIS_FREQ_SPLIT => 0x6FAFF127,
            J_INT_PARAM::JINT_TRELLIS_NUM_LOOPS => 0xB63EBF39,
            J_INT_PARAM::JINT_BASE_QUANT_TBL_IDX => 0x44492AB1,
            J_INT_PARAM::JINT_DC_SCAN_OPT_MODE => 0x0BE7AD3C,
        }
    }

    pub fn code(self) -> (r: u32)
        ensures
            r == self.spec_code(),
    {
        match self {
            J_INT_PARAM::JINT_COMPRESS_PROFILE => 0xE9918625,
            J_INT_PARAM::JINT_TRELLIS_FREQ_SPLIT => 0x6FAFF127,
            J_INT_PARAM::JINT_TRELLIS_NUM_LOOPS => 0xB63EBF39,
            J_INT_PARAM::JINT_BASE_QUANT_TBL_IDX => 0x44492AB1,
            J_INT_PARAM::JINT_DC_SCAN_OPT_MODE => 0x0BE7AD3C,
        }
    }
}

/// Values of the `JINT_COMPRESS_PROFILE` parameter.
#[derive(Debug, Clone, Copy, PartialEq, Eq, Structural)]
pub enum JINT_COMPRESS_PROFILE_VALUE {
    /// best compression ratio (progressive, all mozjpeg extensions)
    JCP_MAX_COMPRESSION,
    /// libjpeg[-turbo] defaults (baseline, no mozjpeg extensions)
    JCP_FASTEST,
}

impl JINT_COMPRESS_PROFILE_VALUE {
    pub open spec fn spec_code(self) -> u32 {
        match self {
            JINT_COMPRESS_PROFILE_VALUE::JCP_MAX_COMPRESSION => 0x5D083AAD,
            JINT_COMPRESS_PROFILE_VALUE::JCP_FASTEST => 0x2AEA5CB4,
        }
    }

    pub fn code(self) -> (r: u32)
        ensures
            r == self.spec_code(),
    {
        match self {
            JINT_COMPRESS_PROFILE_VALUE::JCP_MAX_COMPRESSION => 0x5D083AAD,
            JINT_COMPRESS_PROFILE_VALUE::JCP_FASTEST => 0x2AEA5CB4,
        }
    }
}

/// Parameters of an error message: eight integers or an 80-byte string,
/// held as twenty 32-bit words.
pub struct msg_parm_union {
    pub _bindgen_data_: [u32; 20],
}

impl Default for msg_parm_union {
    fn default() -> (r: msg_parm_union)
        ensures
            forall|i: int| 0 <= i < 20 ==> r._bindgen_data_@[i] == 0,
    {
        msg_parm_union { _bindgen_data_: [0u32; 20] }
    }
}

/// A quantization table.
pub struct JQUANT_TBL {
    /// The coefficient quantizers in natural array order (not the zigzag
    /// order in which a DQT marker stores them).
    pub quantval: [u16; 64],
    /// TRUE when the table has been output to the file.
    pub sent_table: i32,
}

impl Default for JQUANT_TBL {
    fn default() -> (r: JQUANT_TBL)
        ensures
            forall|i: int| 0 <= i < 64 ==> r.quantval@[i] == 0,
            r.sent_table == 0,
    {
        JQUANT_TBL { quantval: [0u16; 64], sent_table: 0 }
    }
}

/// A Huffman coding table.
pub struct JHUFF_TBL {
    /// bits[k] = number of symbols with codes of length k; bits[0] is unused.
    pub bits: [u8; 17],
    /// The symbols, in order of increasing code length.
    pub huffval: [u8; 256],
    /// TRUE when the table has been output to the file.
    pub sent_table: i32,
}

impl Default for JHUFF_TBL {
    fn default() -> (r: JHUFF_TBL)
        ensures
            forall|i: int| 0 <= i < 17 ==> r.bits@[i] == 0,
            forall|i: int| 0 <= i < 256 ==> r.huffval@[i] == 0,
            r.sent_table == 0,
    {
        JHUFF_TBL { bits: [0u8; 17], huffval: [0u8; 256], sent_table: 0 }
    }
}

/// One scan of a multiple-scan (progressive) script.
#[derive(Clone, Copy)]
pub struct jpeg_scan_info {
    /// Number of components encoded in this scan.
    pub comps_in_scan: i32,
    /// Their SOF or comp_info[] indexes.
    pub component_index: [i32; 4],
    /// Progressive JPEG spectral selection parameters.
    pub Ss: i32,
    pub Se: i32,
    /// Progressive JPEG successive approximation parameters.
    pub Ah: i32,
    pub Al: i32,
}

impl Default for jpeg_scan_info {
    fn default() -> (r: jpeg_scan_info)
        ensures
            r.comps_in_scan == 0,
            forall|i: int| 0 <= i < 4 ==> r.component_index@[i] == 0,
            r.Ss == 0 && r.Se == 0 && r.Ah == 0 && r.Al == 0,
    {
        jpeg_scan_info { comps_in_scan: 0, component_index: [0i32; 4], Ss: 0, Se: 0, Ah: 0, Al: 0 }
    }
}

/// Basic information about one component (color channel): the plain-value
/// fields of the C structure, whose two table pointers stay with the C
/// layout.
#[derive(Clone, Copy)]
pub struct jpeg_component_info {
    /// identifier for this component (0..255)
    pub component_id: i32,
    /// its index in SOF or cinfo->comp_info[]
    pub component_index: i32,
    /// horizontal sampling factor (1..4)
    pub h_samp_factor: i32,
    /// vertical sampling factor (1..4)
    pub v_samp_factor: i32,
    /// quantization table selector (0..3)
    pub quant_tbl_no: i32,
    /// DC entropy table selector (0..3)
    pub dc_tbl_no: i32,
    /// AC entropy table selector (0..3)
    pub ac_tbl_no: i32,
    pub width_in_blocks: u32,
    pub height_in_blocks: u32,
    /// Size of a DCT block in samples.
    pub DCT_scaled_size: i32,
    pub downsampled_width: u32,
    pub downsampled_height: u32,
    pub component_needed: i32,
    pub MCU_width: i32,
    pub MCU_height: i32,
    pub MCU_blocks: i32,
    pub MCU_sample_width: i32,
    pub last_col_width: i32,
    pub last_row_height: i32,
}

impl jpeg_component_info {
    /// Whether every field is zero.
    pub open spec fn is_zeroed(self) -> bool {
        &&& self.component_id == 0 && self.component_index == 0
        &&& self.h_samp_factor == 0 && self.v_samp_factor == 0
        &&& self.quant_tbl_no == 0 && self.dc_tbl_no == 0 && self.ac_tbl_no == 0
        &&& self.width_in_blocks == 0 && self.height_in_blocks == 0
        &&& self.DCT_scaled_size == 0
        &&& self.downsampled_width == 0 && self.downsampled_height == 0
        &&& self.component_needed == 0
        &&& self.MCU_width == 0 && self.MCU_height == 0 && self.MCU_blocks == 0
        &&& self.MCU_sample_width == 0
        &&& self.last_col_width == 0 && self.last_row_height == 0
    }
}

impl Default for jpeg_component_info {
    fn default() -> (r: jpeg_component_info)
        ensures
            r.is_zeroed(),
    {
        jpeg_component_info {
            component_id: 0,
            component_index: 0,
            h_samp_factor: 0,
            v_samp_factor: 0,
            quant_tbl_no: 0,
            dc_tbl_no: 0,
            ac_tbl_no: 0,
            width_in_blocks: 0,
            height_in_blocks: 0,
            DCT_scaled_size: 0,
            downsampled_width: 0,
            downsampled_height: 0,
            component_needed: 0,
            MCU_width: 0,
            MCU_height: 0,
            MCU_blocks: 0,
            MCU_sample_width: 0,
            last_col_width: 0,
            last_row_height: 0,
        }
    }
}

} // verus!
