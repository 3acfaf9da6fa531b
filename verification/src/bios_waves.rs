//! The sines and cosines of the 256 angles that the affine functions of the BIOS
//! know.
//!
//! They are numbers of single precision, with 24 significant bits, and stand
//! here as multiples of 2^-50. Each is less than one unit of its last bit away
//! from the exact value. The angle itself is rounded to single precision before
//! its sine is taken, so that the sine of half a turn, say, is not quite zero.

use vstd::prelude::*;

verus! {

/// Fractional bits of the sines and cosines, as a factor.
pub const WAVE_ONE: i64 = 0x4_0000_0000_0000;

/// Sine of each angle.
pub const SINES: [i64; 256] = [
    0x0, 0x1921_5600_0000, 0x323E_CC00_0000, 0x4B54_8280_0000,
    0x645E_9B00_0000, 0x7D59_3980_0000, 0x9640_8300_0000, 0xAF10_A300_0000,
    0xC7C5_C200_0000, 0xE05C_1300_0000, 0xF8CF_CD00_0000, 0x1_111D_2800_0000,
    0x1_2940_6400_0000, 0x1_4135_CA00_0000, 0x1_58F9_A800_0000, 0x1_7088_5400_0000,
    0x1_87DE_2C00_0000, 0x1_9EF7_9600_0000, 0x1_B5D1_0000_0000, 0x1_CC66_EA00_0000,
    0x1_E2B5_D400_0000, 0x1_F8BA_5000_0000, 0x2_0E70_F400_0000, 0x2_23D6_6800_0000,
    0x2_38E7_6800_0000, 0x2_4DA0_AC00_0000, 0x2_61FF_0000_0000, 0x2_75FF_4800_0000,
    0x2_899E_6800_0000, 0x2_9CD9_5800_0000, 0x2_AFAD_2800_0000, 0x2_C216_EC00_0000,
    0x2_D413_CC00_0000, 0x2_E5A1_0800_0000, 0x2_F6BB_E800_0000, 0x3_0761_C400_0000,
    0x3_1790_0C00_0000, 0x3_2744_4800_0000, 0x3_367C_0800_0000, 0x3_4534_F400_0000,
    0x3_536C_C800_0000, 0x3_6121_4C00_0000, 0x3_6E50_6C00_0000, 0x3_7AF8_1400_0000,
    0x3_8716_6000_0000, 0x3_92A9_6400_0000, 0x3_9DAF_6000_0000, 0x3_A826_9C00_0000,
    0x3_B20D_7800_0000, 0x3_BB62_7800_0000, 0x3_C424_2000_0000, 0x3_CC51_2000_0000,
    0x3_D3E8_2C00_0000, 0x3_DAE8_1C00_0000, 0x3_E14F_E000_0000, 0x3_E71E_7400_0000,
    0x3_EC52_FC00_0000, 0x3_F0EC_A000_0000, 0x3_F4EA_B000_0000, 0x3_F84C_9000_0000,
    0x3_FB11_B400_0000, 0x3_FD39_B400_0000, 0x3_FEC4_3C00_0000, 0x3_FFB1_0C00_0000,
    0x4_0000_0000_0000, 0x3_FFB1_0C00_0000, 0x3_FEC4_3C00_0000, 0x3_FD39_B400_0000,
    0x3_FB11_B400_0000, 0x3_F84C_8C00_0000, 0x3_F4EA_B000_0000, 0x3_F0EC_A000_0000,
    0x3_EC52_F800_0000, 0x3_E71E_7400_0000, 0x3_E14F_E000_0000, 0x3_DAE8_1C00_0000,
    0x3_D3E8_2800_0000, 0x3_CC51_1C00_0000, 0x3_C424_2000_0000, 0x3_BB62_7800_0000,
    0x3_B20D_7800_0000, 0x3_A826_9800_0000, 0x3_9DAF_6000_0000, 0x3_92A9_6400_0000,
    0x3_8716_5C00_0000, 0x3_7AF8_1800_0000, 0x3_6E50_6800_0000, 0x3_6121_4800_0000,
    0x3_536C_C000_0000, 0x3_4534_F400_0000, 0x3_367C_0800_0000, 0x3_2744_4400_0000,
    0x3_1790_1000_0000, 0x3_0761_C000_0000, 0x2_F6BB_E000_0000, 0x2_E5A1_0000_0000,
    0x2_D413_CC00_0000, 0x2_C216_E800_0000, 0x2_AFAD_2000_0000, 0x2_9CD9_5800_0000,
    0x2_899E_6400_0000, 0x2_75FF_4000_0000, 0x2_61FE_F400_0000, 0x2_4DA0_A800_0000,
    0x2_38E7_6400_0000, 0x2_23D6_6000_0000, 0x2_0E70_F400_0000, 0x1_F8BA_4A00_0000,
    0x1_E2B5_CC00_0000, 0x1_CC66_EC00_0000, 0x1_B5D0_FE00_0000, 0x1_9EF7_8E00_0000,
    0x1_87DE_2000_0000, 0x1_7088_5400_0000, 0x1_58F9_A400_0000, 0x1_4135_C000_0000,
    0x1_2940_6600_0000, 0x1_111D_2400_0000, 0xF8CF_C500_0000, 0xE05C_0800_0000,
    0xC7C5_C100_0000, 0xAF10_9D00_0000, 0x9640_7A00_0000, 0x7D59_3B00_0000,
    0x645E_9800_0000, 0x4B54_7A80_0000, 0x323E_BF40_0000, 0x1921_54C0_0000,
    -0x5DD_E970, -0x1921_6080_0000, -0x323E_CB00_0000, -0x4B54_8600_0000,
    -0x645E_A380_0000, -0x7D59_4680_0000, -0x9640_8500_0000, -0xAF10_A900_0000,
    -0xC7C5_CD00_0000, -0xE05C_1300_0000, -0xF8CF_D000_0000, -0x1_111D_3000_0000,
    -0x1_2940_7000_0000, -0x1_4135_CC00_0000, -0x1_58F9_AE00_0000, -0x1_7088_5E00_0000,
    -0x1_87DE_2A00_0000, -0x1_9EF7_9A00_0000, -0x1_B5D1_0A00_0000, -0x1_CC66_F600_0000,
    -0x1_E2B5_D600_0000, -0x1_F8BA_5400_0000, -0x2_0E70_FC00_0000, -0x2_23D6_6C00_0000,
    -0x2_38E7_6C00_0000, -0x2_4DA0_B400_0000, -0x2_61FF_0000_0000, -0x2_75FF_4800_0000,
    -0x2_899E_6C00_0000, -0x2_9CD9_6000_0000, -0x2_AFAD_2800_0000, -0x2_C216_F000_0000,
    -0x2_D413_D400_0000, -0x2_E5A1_0800_0000, -0x2_F6BB_E800_0000, -0x3_0761_BC00_0000,
    -0x3_1790_0C00_0000, -0x3_2744_4C00_0000, -0x3_367C_0C00_0000, -0x3_4534_FC00_0000,
    -0x3_536C_D000_0000, -0x3_6121_5800_0000, -0x3_6E50_6400_0000, -0x3_7AF8_1400_0000,
    -0x3_8716_6000_0000, -0x3_92A9_6800_0000, -0x3_9DAF_6400_0000, -0x3_A826_A000_0000,
    -0x3_B20D_8400_0000, -0x3_BB62_7400_0000, -0x3_C424_2000_0000, -0x3_CC51_2000_0000,
    -0x3_D3E8_2C00_0000, -0x3_DAE8_2000_0000, -0x3_E14F_E400_0000, -0x3_E71E_7C00_0000,
    -0x3_EC52_F800_0000, -0x3_F0EC_A000_0000, -0x3_F4EA_B000_0000, -0x3_F84C_9000_0000,
    -0x3_FB11_B400_0000, -0x3_FD39_B800_0000, -0x3_FEC4_3C00_0000, -0x3_FFB1_0C00_0000,
    -0x4_0000_0000_0000, -0x3_FFB1_0C00_0000, -0x3_FEC4_3C00_0000, -0x3_FD39_B400_0000,
    -0x3_FB11_B400_0000, -0x3_F84C_8C00_0000, -0x3_F4EA_B000_0000, -0x3_F0EC_A000_0000,
    -0x3_EC52_F800_0000, -0x3_E71E_7400_0000, -0x3_E14F_DC00_0000, -0x3_DAE8_1800_0000,
    -0x3_D3E8_2400_0000, -0x3_CC51_2000_0000, -0x3_C424_2000_0000, -0x3_BB62_7400_0000,
    -0x3_B20D_7400_0000, -0x3_A826_9400_0000, -0x3_9DAF_5400_0000, -0x3_92A9_5800_0000,
    -0x3_8716_6000_0000, -0x3_7AF8_1400_0000, -0x3_6E50_6400_0000, -0x3_6121_4400_0000,
    -0x3_536C_BC00_0000, -0x3_4534_E800_0000, -0x3_367C_0C00_0000, -0x3_2744_4800_0000,
    -0x3_1790_0C00_0000, -0x3_0761_BC00_0000, -0x2_F6BB_DC00_0000, -0x2_E5A0_FC00_0000,
    -0x2_D413_BC00_0000, -0x2_C216_F000_0000, -0x2_AFAD_2800_0000, -0x2_9CD9_5400_0000,
    -0x2_899E_5C00_0000, -0x2_75FF_3C00_0000, -0x2_61FE_F000_0000, -0x2_4DA0_9800_0000,
    -0x2_38E7_6C00_0000, -0x2_23D6_6C00_0000, -0x2_0E70_F000_0000, -0x1_F8BA_4600_0000,
    -0x1_E2B5_C600_0000, -0x1_CC66_D800_0000, -0x1_B5D0_EC00_0000, -0x1_9EF7_9800_0000,
    -0x1_87DE_2A00_0000, -0x1_7088_4E00_0000, -0x1_58F9_9E00_0000, -0x1_4135_BC00_0000,
    -0x1_2940_5000_0000, -0x1_111D_0E00_0000, -0xF8CF_CF00_0000, -0xE05C_1200_0000,
    -0xC7C5_BC00_0000, -0xAF10_9700_0000, -0x9640_7400_0000, -0x7D59_2500_0000,
    -0x645E_8200_0000, -0x4B54_8480_0000, -0x323E_C980_0000, -0x1921_4EE0_0000,
];

/// Cosine of each angle.
pub const COSINES: [i64; 256] = [
    0x4_0000_0000_0000, 0x3_FFB1_0C00_0000, 0x3_FEC4_3C00_0000, 0x3_FD39_B400_0000,
    0x3_FB11_B400_0000, 0x3_F84C_9000_0000, 0x3_F4EA_B000_0000, 0x3_F0EC_A000_0000,
    0x3_EC52_F800_0000, 0x3_E71E_7400_0000, 0x3_E14F_E000_0000, 0x3_DAE8_1C00_0000,
    0x3_D3E8_2C00_0000, 0x3_CC51_1C00_0000, 0x3_C424_2000_0000, 0x3_BB62_7800_0000,
    0x3_B20D_7800_0000, 0x3_A826_9800_0000, 0x3_9DAF_6000_0000, 0x3_92A9_6400_0000,
    0x3_8716_5C00_0000, 0x3_7AF8_1400_0000, 0x3_6E50_6800_0000, 0x3_6121_4C00_0000,
    0x3_536C_C400_0000, 0x3_4534_F400_0000, 0x3_367C_0800_0000, 0x3_2744_4800_0000,
    0x3_1790_0C00_0000, 0x3_0761_C000_0000, 0x2_F6BB_E400_0000, 0x2_E5A1_0800_0000,
    0x2_D413_CC00_0000, 0x2_C216_E800_0000, 0x2_AFAD_2400_0000, 0x2_9CD9_5400_0000,
    0x2_899E_6400_0000, 0x2_75FF_4400_0000, 0x2_61FF_0000_0000, 0x2_4DA0_A800_0000,
    0x2_38E7_6400_0000, 0x2_23D6_6C00_0000, 0x2_0E70_F000_0000, 0x1_F8BA_4C00_0000,
    0x1_E2B5_CE00_0000, 0x1_CC66_E800_0000, 0x1_B5D1_0200_0000, 0x1_9EF7_9200_0000,
    0x1_87DE_2A00_0000, 0x1_7088_4E00_0000, 0x1_58F9_A600_0000, 0x1_4135_C400_0000,
    0x1_2940_6000_0000, 0x1_111D_2600_0000, 0xF8CF_C800_0000, 0xE05C_1300_0000,
    0xC7C5_BC00_0000, 0xAF10_A000_0000, 0x9640_8500_0000, 0x7D59_3600_0000,
    0x645E_9A80_0000, 0x4B54_7D80_0000, 0x323E_CA40_0000, 0x1921_4FC0_0000,
    -0x2EE_F4B8, -0x1921_55A0_0000, -0x323E_D040_0000, -0x4B54_8300_0000,
    -0x645E_A080_0000, -0x7D59_3B80_0000, -0x9640_8A00_0000, -0xAF10_A600_0000,
    -0xC7C5_C200_0000, -0xE05C_1800_0000, -0xF8CF_CD00_0000, -0x1_111D_2C00_0000,
    -0x1_2940_6600_0000, -0x1_4135_C800_0000, -0x1_58F9_AC00_0000, -0x1_7088_5400_0000,
    -0x1_87DE_3000_0000, -0x1_9EF7_9600_0000, -0x1_B5D1_0000_0000, -0x1_CC66_EC00_0000,
    -0x1_E2B5_DA00_0000, -0x1_F8BA_4C00_0000, -0x2_0E70_F400_0000, -0x2_23D6_7000_0000,
    -0x2_38E7_7000_0000, -0x2_4DA0_A800_0000, -0x2_61FF_0400_0000, -0x2_75FF_4C00_0000,
    -0x2_899E_6400_0000, -0x2_9CD9_5800_0000, -0x2_AFAD_2C00_0000, -0x2_C216_F400_0000,
    -0x2_D413_CC00_0000, -0x2_E5A1_0C00_0000, -0x2_F6BB_EC00_0000, -0x3_0761_C000_0000,
    -0x3_1790_1000_0000, -0x3_2744_4C00_0000, -0x3_367C_1000_0000, -0x3_4534_F400_0000,
    -0x3_536C_C800_0000, -0x3_6121_5000_0000, -0x3_6E50_6800_0000, -0x3_7AF8_1800_0000,
    -0x3_8716_6400_0000, -0x3_92A9_6400_0000, -0x3_9DAF_6000_0000, -0x3_A826_9C00_0000,
    -0x3_B20D_8000_0000, -0x3_BB62_7800_0000, -0x3_C424_2400_0000, -0x3_CC51_2000_0000,
    -0x3_D3E8_2C00_0000, -0x3_DAE8_1C00_0000, -0x3_E14F_E000_0000, -0x3_E71E_7800_0000,
    -0x3_EC52_FC00_0000, -0x3_F0EC_A000_0000, -0x3_F4EA_B000_0000, -0x3_F84C_8C00_0000,
    -0x3_FB11_B400_0000, -0x3_FD39_B800_0000, -0x3_FEC4_3C00_0000, -0x3_FFB1_0C00_0000,
    -0x4_0000_0000_0000, -0x3_FFB1_0C00_0000, -0x3_FEC4_3C00_0000, -0x3_FD39_B400_0000,
    -0x3_FB11_B400_0000, -0x3_F84C_8C00_0000, -0x3_F4EA_B000_0000, -0x3_F0EC_A000_0000,
    -0x3_EC52_F800_0000, -0x3_E71E_7400_0000, -0x3_E14F_E000_0000, -0x3_DAE8_1C00_0000,
    -0x3_D3E8_2800_0000, -0x3_CC51_1C00_0000, -0x3_C424_2000_0000, -0x3_BB62_7400_0000,
    -0x3_B20D_7800_0000, -0x3_A826_9800_0000, -0x3_9DAF_5C00_0000, -0x3_92A9_5C00_0000,
    -0x3_8716_5C00_0000, -0x3_7AF8_1000_0000, -0x3_6E50_6400_0000, -0x3_6121_4C00_0000,
    -0x3_536C_C000_0000, -0x3_4534_EC00_0000, -0x3_367C_0800_0000, -0x3_2744_4800_0000,
    -0x3_1790_0800_0000, -0x3_0761_B800_0000, -0x2_F6BB_E400_0000, -0x2_E5A1_0400_0000,
    -0x2_D413_C400_0000, -0x2_C216_EC00_0000, -0x2_AFAD_2400_0000, -0x2_9CD9_5C00_0000,
    -0x2_899E_6800_0000, -0x2_75FF_4400_0000, -0x2_61FE_F800_0000, -0x2_4DA0_A000_0000,
    -0x2_38E7_5800_0000, -0x2_23D6_5800_0000, -0x2_0E70_F800_0000, -0x1_F8BA_4E00_0000,
    -0x1_E2B5_D000_0000, -0x1_CC66_E200_0000, -0x1_B5D0_F600_0000, -0x1_9EF7_8400_0000,
    -0x1_87DE_1600_0000, -0x1_7088_5800_0000, -0x1_58F9_A800_0000, -0x1_4135_C600_0000,
    -0x1_2940_5A00_0000, -0x1_111D_1A00_0000, -0xF8CF_BA00_0000, -0xE05B_FD00_0000,
    -0xC7C5_C600_0000, -0xAF10_A200_0000, -0x9640_7F00_0000, -0x7D59_3000_0000,
    -0x645E_8D00_0000, -0x4B54_6F80_0000, -0x323E_B480_0000, -0x1921_59E0_0000,
    0xCC_DE2E, 0x1921_5B60_0000, 0x323E_D600_0000, 0x4B54_9100_0000,
    0x645E_AE80_0000, 0x7D59_5180_0000, 0x9640_8000_0000, 0xAF10_A400_0000,
    0xC7C5_C800_0000, 0xE05C_1E00_0000, 0xF8CF_DB00_0000, 0x1_111D_3A00_0000,
    0x1_2940_7A00_0000, 0x1_4135_C600_0000, 0x1_58F9_AA00_0000, 0x1_7088_5A00_0000,
    0x1_87DE_3600_0000, 0x1_9EF7_A400_0000, 0x1_B5D1_1400_0000, 0x1_CC67_0000_0000,
    0x1_E2B5_D200_0000, 0x1_F8BA_5000_0000, 0x2_0E70_F800_0000, 0x2_23D6_7400_0000,
    0x2_38E7_7400_0000, 0x2_4DA0_BC00_0000, 0x2_61FE_FC00_0000, 0x2_75FF_4400_0000,
    0x2_899E_6800_0000, 0x2_9CD9_5C00_0000, 0x2_AFAD_3000_0000, 0x2_C216_F800_0000,
    0x2_D413_DC00_0000, 0x2_E5A1_0400_0000, 0x2_F6BB_E400_0000, 0x3_0761_C400_0000,
    0x3_1790_1400_0000, 0x3_2744_5000_0000, 0x3_367C_1400_0000, 0x3_4535_0000_0000,
    0x3_536C_C400_0000, 0x3_6121_4C00_0000, 0x3_6E50_6C00_0000, 0x3_7AF8_1C00_0000,
    0x3_8716_6400_0000, 0x3_92A9_6C00_0000, 0x3_9DAF_6800_0000, 0x3_A826_9800_0000,
    0x3_B20D_7C00_0000, 0x3_BB62_7800_0000, 0x3_C424_2400_0000, 0x3_CC51_2400_0000,
    0x3_D3E8_3000_0000, 0x3_DAE8_2400_0000, 0x3_E14F_E000_0000, 0x3_E71E_7400_0000,
    0x3_EC52_FC00_0000, 0x3_F0EC_A000_0000, 0x3_F4EA_B400_0000, 0x3_F84C_9000_0000,
    0x3_FB11_B800_0000, 0x3_FD39_B400_0000, 0x3_FEC4_3C00_0000, 0x3_FFB1_0C00_0000,
];

/// The sine of an angle; the circle has 256 parts.
pub open spec fn sine_of(angle: u8) -> int {
    SINES@[angle as int] as int
}

/// The cosine of an angle; the circle has 256 parts.
pub open spec fn cosine_of(angle: u8) -> int {
    COSINES@[angle as int] as int
}

/// The sine of an angle.
pub fn sine(angle: u8) -> (r: i64)
    ensures
        r == sine_of(angle),
{
    SINES[angle as usize]
}

/// The cosine of an angle.
pub fn cosine(angle: u8) -> (r: i64)
    ensures
        r == cosine_of(angle),
{
    COSINES[angle as usize]
}

} // verus!
