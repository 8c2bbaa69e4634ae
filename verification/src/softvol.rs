//! The level in decibels of a volume setting.
//!
//! The audio output maps a volume setting to amplitude by its cube, so a setting `v`
//! of a hundred sounds sixty times the decimal logarithm of `v / 100` decibels loud.

use vstd::prelude::*;

use crate::number::Real;

verus! {

/// The level at and below which a signal counts as silence, in billionths of a
/// decibel.
pub const SYNTH_FLOOR_DB: i128 = -60_000_000_000;

/// Sixty times the decimal logarithm of a hundredth of the index, in billionths and
/// rounded to the nearest; a setting of none stands at the floor.
pub const SOFTVOL_DB: [i64; 256] = [
    -60_000_000_000, -120_000_000_000, -101_938_200_260, -91_372_724_717,
    -83_876_400_520, -78_061_799_740, -73_310_924_977, -69_294_117_599,
    -65_814_600_780, -62_745_449_434, -60_000_000_000, -57_516_438_891,
    -55_249_125_237, -53_163_398_862, -51_232_317_859, -49_434_524_457,
    -47_752_801_041, -46_173_064_717, -44_683_649_694, -43_274_783_943,
    -41_938_200_260, -40_666_842_316, -39_454_639_151, -38_296_329_839,
    -37_187_325_497, -36_123_599_480, -35_101_599_122, -34_118_174_150,
    -33_170_518_119, -32_256_120_126, -31_372_724_717, -30_518_298_370,
    -29_691_001_301, -28_889_163_607, -28_111_264_977, -27_355_917_339,
    -26_621_849_954, -25_907_896_556, -25_212_984_203, -24_536_123_578,
    -23_876_400_520, -23_232_968_597, -22_605_042_576, -21_991_892_665,
    -21_392_839_411, -20_807_249_173, -20_234_530_099, -19_674_128_524,
    -19_125_525_757, -18_588_235_198, -18_061_799_740, -17_545_789_434,
    -17_039_799_382, -16_543_447_824, -16_056_374_411, -15_578_238_630,
    -15_108_718_380, -14_647_508_660, -14_194_320_386, -13_748_879_301,
    -13_310_924_977, -12_880_209_899, -12_456_498_630, -12_039_567_033,
    -11_629_201_561, -11_225_198_601, -10_827_363_867, -10_435_511_838,
    -10_049_465_238, -9_669_054_556, -9_294_117_599, -8_924_499_077,
    -8_560_050_214, -8_200_628_393, -7_846_096_816, -7_496_324_196,
    -7_151_184_463, -6_810_556_490, -6_474_323_839, -6_142_374_523,
    -5_814_600_780, -5_490_898_867, -5_171_168_857, -4_855_314_457,
    -4_543_242_836, -4_234_864_457, -3_930_092_925, -3_628_844_843,
    -3_331_039_671, -3_036_599_601, -2_745_449_434, -2_457_516_461,
    -2_172_730_359, -1_891_023_087, -1_612_328_784, -1_336_583_683,
    -1_063_726_018, -793_695_944, -526_435_458, -261_888_324,
    0, 259_282_427, 516_010_306, 770_233_482,
    1_022_000_358, 1_271_357_944, 1_518_351_916, 1_763_026_661,
    2_005_425_329, 2_245_589_876, 2_483_561_109, 2_719_378_727,
    2_953_081_360, 3_184_706_609, 3_414_291_080, 3_641_870_421,
    3_867_479_354, 4_091_151_705, 4_312_920_438, 4_532_817_684,
    4_750_874_763, 4_967_122_219, 5_181_589_840, 5_394_306_686,
    5_605_301_110, 5_814_600_780, 6_022_232_707, 6_228_223_257,
    6_432_598_179, 6_635_382_618, 6_836_601_138, 7_036_277_739,
    7_234_435_872, 7_431_098_458, 7_626_287_902, 7_820_026_110,
    8_012_334_502, 8_203_234_029, 8_392_745_184, 8_580_888_015,
    8_767_682_141, 8_953_146_759, 9_137_300_663, 9_320_162_248,
    9_501_749_526, 9_682_080_134, 9_861_171_347, 10_039_040_085,
    10_215_702_924, 10_391_176_105, 10_565_475_543, 10_738_616_838,
    10_910_615_277, 11_081_485_849, 11_251_243_250, 11_419_901_890,
    11_587_475_901, 11_753_979_145, 11_919_425_217, 12_083_827_459,
    12_247_198_959, 12_409_552_562, 12_570_900_873, 12_731_256_264,
    12_890_630_883, 13_049_036_653, 13_206_485_282, 13_362_988_269,
    13_518_556_904, 13_673_202_277, 13_826_935_283, 13_979_766_624,
    14_131_706_814, 14_282_766_188, 14_432_954_897, 14_582_282_921,
    14_730_760_069, 14_878_395_982, 15_025_200_139, 15_171_181_859,
    15_316_350_306, 15_460_714_492, 15_604_283_279, 15_747_065_384,
    15_889_069_381, 16_030_303_704, 16_170_776_653, 16_310_496_392,
    16_449_470_956, 16_587_708_250, 16_725_216_057, 16_862_002_035,
    16_998_073_722, 17_133_438_540, 17_268_103_796, 17_402_076_682,
    17_535_364_281, 17_667_973_570, 17_799_911_416, 17_931_184_585,
    18_061_799_740, 18_191_763_445, 18_321_082_167, 18_449_762_275,
    18_577_810_046, 18_705_231_663, 18_832_033_222, 18_958_220_727,
    19_083_800_098, 19_208_777_167, 19_333_157_684, 19_456_947_318,
    19_580_151_656, 19_702_776_206, 19_824_826_401, 19_946_307_595,
    20_067_225_069, 20_187_584_031, 20_307_389_616, 20_426_646_890,
    20_545_360_849, 20_663_536_421, 20_781_178_467, 20_898_291_783,
    21_014_881_100, 21_130_951_087, 21_246_506_349, 21_361_551_432,
    21_476_090_820, 21_590_128_940, 21_703_670_161, 21_816_718_794,
    21_929_279_093, 22_041_355_262, 22_152_951_445, 22_264_071_736,
    22_374_720_178, 22_484_900_761, 22_594_617_423, 22_703_874_057,
    22_812_674_503, 22_921_022_554, 23_028_921_959, 23_136_376_416,
    23_243_389_580, 23_349_965_062, 23_456_106_426, 23_561_817_196,
    23_667_100_850, 23_771_960_826, 23_876_400_520, 23_980_423_289,
    24_084_032_447, 24_187_231_271, 24_290_022_997, 24_392_410_826,
];

/// The level of a volume setting, in billionths of a decibel.
pub open spec fn level_of(vol: u8) -> int {
    SOFTVOL_DB[vol as int] as int
}

/// The level of a volume setting.
pub fn mpv_volume_to_db(vol: u8) -> (r: Real)
    ensures
        r == Real::Finite(level_of(vol) as i128),
{
    Real::Finite(SOFTVOL_DB[vol as usize] as i128)
}

/// A higher setting is louder, a hundred leaves the sound as it is, and the level goes by
/// the ratio of the settings alone: twice the setting adds 18.061799740 decibels, three times
/// 28.627275283, five times 41.938200260 and ten times 60, to the last place.
pub proof fn the_level_goes_by_the_ratio(v: u8)
    requires
        1 <= v,
    ensures
        level_of(100) == 0,
        level_of(0) == -60_000_000_000,
        v < 255 ==> level_of(v) < level_of((v + 1) as u8),
        2 * v <= 255 ==> -2 <= level_of((2 * v) as u8) - level_of(v) - 18_061_799_740 <= 2,
        3 * v <= 255 ==> -2 <= level_of((3 * v) as u8) - level_of(v) - 28_627_275_283 <= 2,
        5 * v <= 255 ==> -2 <= level_of((5 * v) as u8) - level_of(v) - 41_938_200_260 <= 2,
        10 * v <= 255 ==> -2 <= level_of((10 * v) as u8) - level_of(v) - 60_000_000_000 <= 2,
{
}

} // verus!
