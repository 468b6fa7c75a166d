//! Atomic scattering factors.
//!
//! Each element carries a nine-parameter analytic form
//! `f(s) = c + a1 exp(-b1 s^2) + .. + a4 exp(-b4 s^2)` with `s = sin(theta) /
//! wavelength`, the coefficients taken from the standard crystallographic
//! reference tables, here in micro-units. Lookup degrades gracefully: the
//! full symbol first, then its first two characters (so a labelled site such
//! as "Fe1" still scatters like iron), then the first character, and an
//! unknown symbol scatters with strength zero rather than failing the whole
//! pattern.

use vstd::prelude::*;

use crate::fx::{fx_add, fx_mul, exp_neg_fx, spec_add_fx, spec_mul_fx, spec_exp_neg_fx};

verus! {

/// The nine coefficients of one element's analytic scattering-factor form,
/// in micro-units.
#[derive(Clone, Copy, PartialEq, Eq, Structural, Debug)]
pub struct ScatteringFactorParams {
    pub a1: i64,
    pub a2: i64,
    pub a3: i64,
    pub a4: i64,
    pub b1: i64,
    pub b2: i64,
    pub b3: i64,
    pub b4: i64,
    pub c: i64,
}

/// Character-wise string equality.
pub fn str_eq(a: &str, b: &str) -> (r: bool)
    ensures
        r == (a@ == b@),
{
    let la: usize = a.unicode_len();
    let lb: usize = b.unicode_len();
    if la != lb {
        proof {
            assert(a@.len() != b@.len());
        }
        return false;
    }
    let mut i: usize = 0;
    while i < la
        invariant
            i <= la,
            la == a@.len(),
            la == b@.len(),
            forall|k: int| 0 <= k < i ==> a@[k] == b@[k],
        decreases la - i,
    {
        if a.get_char(i) != b.get_char(i) {
            return false;
        }
        i = i + 1;
    }
    proof {
        assert(a@ =~= b@);
    }
    true
}

/// The scattering-factor table: coefficients for each known element symbol.
#[verifier::opaque]
pub open spec fn spec_table(sym: Seq<char>) -> Option<ScatteringFactorParams> {
    if sym == "H"@ {
        Some(ScatteringFactorParams { a1: 493_002, a2: 322_912, a3: 140_191, a4: 40_810, b1: 10_510_900, b2: 26_125_700, b3: 3_142_360, b4: 57_799_700, c: 3_038 })
    } else if sym == "He"@ {
        Some(ScatteringFactorParams { a1: 873_400, a2: 630_900, a3: 311_200, a4: 178_000, b1: 9_103_700, b2: 3_356_800, b3: 22_927_600, b4: 982_100, c: 6_400 })
    } else if sym == "Li"@ {
        Some(ScatteringFactorParams { a1: 1_128_200, a2: 750_800, a3: 617_500, a4: 465_300, b1: 3_954_600, b2: 1_052_400, b3: 85_390_500, b4: 168_261_000, c: 37_700 })
    } else if sym == "Be"@ {
        Some(ScatteringFactorParams { a1: 1_591_900, a2: 1_127_800, a3: 539_100, a4: 702_900, b1: 43_642_700, b2: 1_862_300, b3: 103_483_000, b4: 542_000, c: 38_500 })
    } else if sym == "B"@ {
        Some(ScatteringFactorParams { a1: 2_054_500, a2: 1_332_600, a3: 1_097_900, a4: 706_800, b1: 23_218_500, b2: 1_021_000, b3: 60_349_800, b4: 140_300, c: -193_200i64 })
    } else if sym == "C"@ {
        Some(ScatteringFactorParams { a1: 2_310_000, a2: 1_020_000, a3: 1_588_600, a4: 865_000, b1: 20_843_900, b2: 10_207_500, b3: 568_700, b4: 51_651_200, c: 215_600 })
    } else if sym == "N"@ {
        Some(ScatteringFactorParams { a1: 12_212_600, a2: 3_132_200, a3: 2_012_500, a4: 1_166_300, b1: 5_700, b2: 9_893_300, b3: 28_997_500, b4: 582_600, c: -11_529_000i64 })
    } else if sym == "O"@ {
        Some(ScatteringFactorParams { a1: 3_048_500, a2: 2_286_800, a3: 1_546_300, a4: 867_000, b1: 13_277_100, b2: 5_701_100, b3: 323_900, b4: 32_908_900, c: 250_800 })
    } else if sym == "F"@ {
        Some(ScatteringFactorParams { a1: 3_539_200, a2: 2_641_200, a3: 1_517_000, a4: 1_024_300, b1: 10_282_500, b2: 4_294_400, b3: 261_500, b4: 26_147_600, c: 277_600 })
    } else if sym == "Na"@ {
        Some(ScatteringFactorParams { a1: 4_762_600, a2: 3_173_600, a3: 1_267_400, a4: 1_112_800, b1: 3_285_000, b2: 8_842_200, b3: 313_600, b4: 129_424_000, c: 676_000 })
    } else if sym == "Mg"@ {
        Some(ScatteringFactorParams { a1: 5_420_400, a2: 2_173_500, a3: 1_226_900, a4: 2_307_300, b1: 2_827_500, b2: 79_261_100, b3: 380_800, b4: 7_193_700, c: 858_400 })
    } else if sym == "Al"@ {
        Some(ScatteringFactorParams { a1: 6_420_200, a2: 1_900_200, a3: 1_593_600, a4: 1_964_600, b1: 3_038_700, b2: 742_600, b3: 31_547_200, b4: 85_088_600, c: 1_115_100 })
    } else if sym == "Si"@ {
        Some(ScatteringFactorParams { a1: 6_291_500, a2: 3_035_300, a3: 1_989_100, a4: 1_541_000, b1: 2_438_600, b2: 32_333_700, b3: 678_500, b4: 81_693_700, c: 1_140_700 })
    } else if sym == "P"@ {
        Some(ScatteringFactorParams { a1: 6_434_500, a2: 4_179_100, a3: 1_780_000, a4: 1_490_800, b1: 1_906_700, b2: 27_157_000, b3: 526_000, b4: 68_164_500, c: 1_114_900 })
    } else if sym == "S"@ {
        Some(ScatteringFactorParams { a1: 6_905_300, a2: 5_203_400, a3: 1_437_900, a4: 1_586_300, b1: 1_467_900, b2: 22_215_100, b3: 253_600, b4: 56_172_000, c: 866_900 })
    } else if sym == "Cl"@ {
        Some(ScatteringFactorParams { a1: 11_460_400, a2: 7_196_400, a3: 6_255_600, a4: 1_645_500, b1: 10_400, b2: 1_166_200, b3: 18_519_400, b4: 47_778_400, c: -9_557_400i64 })
    } else if sym == "K"@ {
        Some(ScatteringFactorParams { a1: 8_218_600, a2: 7_439_800, a3: 1_051_900, a4: 865_900, b1: 12_794_900, b2: 774_800, b3: 213_187_000, b4: 41_684_100, c: 1_422_800 })
    } else if sym == "Ca"@ {
        Some(ScatteringFactorParams { a1: 8_626_600, a2: 7_387_300, a3: 1_589_900, a4: 1_021_100, b1: 10_442_100, b2: 659_900, b3: 85_748_400, b4: 178_437_000, c: 1_375_100 })
    } else if sym == "Ti"@ {
        Some(ScatteringFactorParams { a1: 9_759_500, a2: 7_355_800, a3: 1_699_100, a4: 1_902_100, b1: 7_850_800, b2: 500_000, b3: 35_633_800, b4: 116_105_000, c: 1_280_700 })
    } else if sym == "V"@ {
        Some(ScatteringFactorParams { a1: 10_297_100, a2: 7_351_100, a3: 2_070_300, a4: 2_057_100, b1: 6_865_700, b2: 438_500, b3: 26_893_800, b4: 102_478_000, c: 1_219_900 })
    } else if sym == "Cr"@ {
        Some(ScatteringFactorParams { a1: 10_640_600, a2: 7_353_700, a3: 3_324_000, a4: 1_492_200, b1: 6_103_800, b2: 392_000, b3: 20_262_600, b4: 98_739_900, c: 1_183_200 })
    } else if sym == "Mn"@ {
        Some(ScatteringFactorParams { a1: 11_281_900, a2: 7_357_300, a3: 3_019_300, a4: 2_244_100, b1: 5_340_900, b2: 343_200, b3: 17_867_400, b4: 83_754_300, c: 1_089_600 })
    } else if sym == "Fe"@ {
        Some(ScatteringFactorParams { a1: 11_769_500, a2: 7_357_300, a3: 3_522_200, a4: 2_304_500, b1: 4_761_100, b2: 307_200, b3: 15_353_500, b4: 76_880_500, c: 1_036_900 })
    } else if sym == "Co"@ {
        Some(ScatteringFactorParams { a1: 12_284_100, a2: 7_340_900, a3: 4_003_400, a4: 2_348_800, b1: 4_279_100, b2: 278_400, b3: 13_535_900, b4: 71_169_200, c: 1_011_800 })
    } else if sym == "Ni"@ {
        Some(ScatteringFactorParams { a1: 12_837_600, a2: 7_292_000, a3: 4_443_800, a4: 2_380_000, b1: 3_878_500, b2: 256_500, b3: 12_176_300, b4: 66_342_100, c: 1_034_100 })
    } else if sym == "Cu"@ {
        Some(ScatteringFactorParams { a1: 13_338_000, a2: 7_167_600, a3: 5_615_800, a4: 1_673_500, b1: 3_582_800, b2: 247_000, b3: 11_396_600, b4: 64_812_600, c: 1_191_000 })
    } else if sym == "Zn"@ {
        Some(ScatteringFactorParams { a1: 14_074_300, a2: 7_031_800, a3: 5_165_200, a4: 2_410_000, b1: 3_265_500, b2: 233_300, b3: 10_316_300, b4: 58_709_700, c: 1_304_100 })
    } else if sym == "Ga"@ {
        Some(ScatteringFactorParams { a1: 15_235_400, a2: 6_700_600, a3: 4_359_100, a4: 2_962_300, b1: 3_066_900, b2: 241_200, b3: 10_780_500, b4: 61_413_500, c: 1_718_900 })
    } else if sym == "Ge"@ {
        Some(ScatteringFactorParams { a1: 16_081_600, a2: 6_374_700, a3: 3_706_800, a4: 3_683_000, b1: 2_850_900, b2: 251_600, b3: 11_446_800, b4: 54_762_500, c: 2_131_300 })
    } else if sym == "As"@ {
        Some(ScatteringFactorParams { a1: 16_672_300, a2: 6_070_100, a3: 3_431_300, a4: 4_277_900, b1: 2_634_500, b2: 264_700, b3: 12_947_900, b4: 47_797_200, c: 2_531_000 })
    } else if sym == "Se"@ {
        Some(ScatteringFactorParams { a1: 17_000_600, a2: 5_819_600, a3: 3_973_100, a4: 4_354_300, b1: 2_409_800, b2: 272_600, b3: 15_237_200, b4: 43_816_300, c: 2_840_900 })
    } else if sym == "Br"@ {
        Some(ScatteringFactorParams { a1: 17_178_900, a2: 5_235_800, a3: 5_637_700, a4: 3_985_100, b1: 2_172_300, b2: 16_579_600, b3: 260_900, b4: 41_432_800, c: 2_955_700 })
    } else if sym == "Rb"@ {
        Some(ScatteringFactorParams { a1: 17_581_600, a2: 7_659_800, a3: 5_898_100, a4: 2_781_700, b1: 1_713_900, b2: 14_795_700, b3: 160_300, b4: 31_208_700, c: 2_078_200 })
    } else if sym == "Sr"@ {
        Some(ScatteringFactorParams { a1: 17_566_300, a2: 9_818_400, a3: 5_422_000, a4: 2_669_400, b1: 1_556_400, b2: 14_098_800, b3: 166_400, b4: 132_376_000, c: 2_506_400 })
    } else if sym == "Y"@ {
        Some(ScatteringFactorParams { a1: 17_776_000, a2: 10_294_600, a3: 5_726_300, a4: 3_265_600, b1: 1_402_900, b2: 12_800_600, b3: 125_500, b4: 104_354_000, c: 1_934_100 })
    } else if sym == "Zr"@ {
        Some(ScatteringFactorParams { a1: 17_876_500, a2: 10_948_000, a3: 5_417_300, a4: 3_657_700, b1: 1_276_100, b2: 11_916_000, b3: 117_600, b4: 87_662_700, c: 2_069_000 })
    } else if sym == "Nb"@ {
        Some(ScatteringFactorParams { a1: 17_614_200, a2: 12_014_400, a3: 4_041_800, a4: 3_533_400, b1: 1_188_600, b2: 11_766_000, b3: 204_700, b4: 69_795_700, c: 3_755_300 })
    } else if sym == "Mo"@ {
        Some(ScatteringFactorParams { a1: 3_702_500, a2: 17_235_600, a3: 12_887_600, a4: 3_742_900, b1: 277_200, b2: 1_095_800, b3: 11_004_000, b4: 61_658_400, c: 4_387_500 })
    } else if sym == "Ag"@ {
        Some(ScatteringFactorParams { a1: 19_280_800, a2: 16_688_500, a3: 4_804_500, a4: 1_046_300, b1: 644_600, b2: 7_472_600, b3: 24_660_500, b4: 99_815_600, c: 5_179_000 })
    } else if sym == "Ba"@ {
        Some(ScatteringFactorParams { a1: 20_336_100, a2: 19_297_000, a3: 10_888_000, a4: 2_695_900, b1: 3_216_000, b2: 275_600, b3: 20_207_300, b4: 167_202_000, c: 2_773_100 })
    } else if sym == "La"@ {
        Some(ScatteringFactorParams { a1: 20_578_000, a2: 19_599_000, a3: 11_372_700, a4: 3_287_900, b1: 2_948_000, b2: 244_000, b3: 18_772_600, b4: 133_124_000, c: 2_146_100 })
    } else if sym == "Ce"@ {
        Some(ScatteringFactorParams { a1: 21_167_100, a2: 19_769_500, a3: 11_851_300, a4: 3_330_300, b1: 2_812_900, b2: 226_800, b3: 17_608_300, b4: 127_113_000, c: 1_862_300 })
    } else if sym == "Au"@ {
        Some(ScatteringFactorParams { a1: 16_881_900, a2: 18_591_300, a3: 25_558_200, a4: 5_860_000, b1: 461_100, b2: 8_621_600, b3: 1_482_600, b4: 36_395_600, c: 12_065_800 })
    } else if sym == "Pb"@ {
        Some(ScatteringFactorParams { a1: 31_061_700, a2: 13_063_700, a3: 18_442_000, a4: 5_969_600, b1: 690_200, b2: 2_357_600, b3: 8_618_000, b4: 47_257_900, c: 13_411_800 })
    } else if sym == "Bi"@ {
        Some(ScatteringFactorParams { a1: 33_368_900, a2: 12_951_000, a3: 16_587_700, a4: 6_469_200, b1: 704_000, b2: 2_923_800, b3: 8_793_700, b4: 48_009_300, c: 13_578_200 })
    } else {
        None
    }
}

/// Table lookup on the exact symbol.
pub fn lookup_table(element: &str) -> (r: Option<ScatteringFactorParams>)
    ensures
        r == spec_table(element@),
{
    proof {
        reveal(spec_table);
    }
    if str_eq(element, "H") {
        Some(ScatteringFactorParams { a1: 493_002, a2: 322_912, a3: 140_191, a4: 40_810, b1: 10_510_900, b2: 26_125_700, b3: 3_142_360, b4: 57_799_700, c: 3_038 })
    } else if str_eq(element, "He") {
        Some(ScatteringFactorParams { a1: 873_400, a2: 630_900, a3: 311_200, a4: 178_000, b1: 9_103_700, b2: 3_356_800, b3: 22_927_600, b4: 982_100, c: 6_400 })
    } else if str_eq(element, "Li") {
        Some(ScatteringFactorParams { a1: 1_128_200, a2: 750_800, a3: 617_500, a4: 465_300, b1: 3_954_600, b2: 1_052_400, b3: 85_390_500, b4: 168_261_000, c: 37_700 })
    } else if str_eq(element, "Be") {
        Some(ScatteringFactorParams { a1: 1_591_900, a2: 1_127_800, a3: 539_100, a4: 702_900, b1: 43_642_700, b2: 1_862_300, b3: 103_483_000, b4: 542_000, c: 38_500 })
    } else if str_eq(element, "B") {
        Some(ScatteringFactorParams { a1: 2_054_500, a2: 1_332_600, a3: 1_097_900, a4: 706_800, b1: 23_218_500, b2: 1_021_000, b3: 60_349_800, b4: 140_300, c: -193_200i64 })
    } else if str_eq(element, "C") {
        Some(ScatteringFactorParams { a1: 2_310_000, a2: 1_020_000, a3: 1_588_600, a4: 865_000, b1: 20_843_900, b2: 10_207_500, b3: 568_700, b4: 51_651_200, c: 215_600 })
    } else if str_eq(element, "N") {
        Some(ScatteringFactorParams { a1: 12_212_600, a2: 3_132_200, a3: 2_012_500, a4: 1_166_300, b1: 5_700, b2: 9_893_300, b3: 28_997_500, b4: 582_600, c: -11_529_000i64 })
    } else if str_eq(element, "O") {
        Some(ScatteringFactorParams { a1: 3_048_500, a2: 2_286_800, a3: 1_546_300, a4: 867_000, b1: 13_277_100, b2: 5_701_100, b3: 323_900, b4: 32_908_900, c: 250_800 })
    } else if str_eq(element, "F") {
        Some(ScatteringFactorParams { a1: 3_539_200, a2: 2_641_200, a3: 1_517_000, a4: 1_024_300, b1: 10_282_500, b2: 4_294_400, b3: 261_500, b4: 26_147_600, c: 277_600 })
    } else if str_eq(element, "Na") {
        Some(ScatteringFactorParams { a1: 4_762_600, a2: 3_173_600, a3: 1_267_400, a4: 1_112_800, b1: 3_285_000, b2: 8_842_200, b3: 313_600, b4: 129_424_000, c: 676_000 })
    } else if str_eq(element, "Mg") {
        Some(ScatteringFactorParams { a1: 5_420_400, a2: 2_173_500, a3: 1_226_900, a4: 2_307_300, b1: 2_827_500, b2: 79_261_100, b3: 380_800, b4: 7_193_700, c: 858_400 })
    } else if str_eq(element, "Al") {
        Some(ScatteringFactorParams { a1: 6_420_200, a2: 1_900_200, a3: 1_593_600, a4: 1_964_600, b1: 3_038_700, b2: 742_600, b3: 31_547_200, b4: 85_088_600, c: 1_115_100 })
    } else if str_eq(element, "Si") {
        Some(ScatteringFactorParams { a1: 6_291_500, a2: 3_035_300, a3: 1_989_100, a4: 1_541_000, b1: 2_438_600, b2: 32_333_700, b3: 678_500, b4: 81_693_700, c: 1_140_700 })
    } else if str_eq(element, "P") {
        Some(ScatteringFactorParams { a1: 6_434_500, a2: 4_179_100, a3: 1_780_000, a4: 1_490_800, b1: 1_906_700, b2: 27_157_000, b3: 526_000, b4: 68_164_500, c: 1_114_900 })
    } else if str_eq(element, "S") {
        Some(ScatteringFactorParams { a1: 6_905_300, a2: 5_203_400, a3: 1_437_900, a4: 1_586_300, b1: 1_467_900, b2: 22_215_100, b3: 253_600, b4: 56_172_000, c: 866_900 })
    } else if str_eq(element, "Cl") {
        Some(ScatteringFactorParams { a1: 11_460_400, a2: 7_196_400, a3: 6_255_600, a4: 1_645_500, b1: 10_400, b2: 1_166_200, b3: 18_519_400, b4: 47_778_400, c: -9_557_400i64 })
    } else if str_eq(element, "K") {
        Some(ScatteringFactorParams { a1: 8_218_600, a2: 7_439_800, a3: 1_051_900, a4: 865_900, b1: 12_794_900, b2: 774_800, b3: 213_187_000, b4: 41_684_100, c: 1_422_800 })
    } else if str_eq(element, "Ca") {
        Some(ScatteringFactorParams { a1: 8_626_600, a2: 7_387_300, a3: 1_589_900, a4: 1_021_100, b1: 10_442_100, b2: 659_900, b3: 85_748_400, b4: 178_437_000, c: 1_375_100 })
    } else if str_eq(element, "Ti") {
        Some(ScatteringFactorParams { a1: 9_759_500, a2: 7_355_800, a3: 1_699_100, a4: 1_902_100, b1: 7_850_800, b2: 500_000, b3: 35_633_800, b4: 116_105_000, c: 1_280_700 })
    } else if str_eq(element, "V") {
        Some(ScatteringFactorParams { a1: 10_297_100, a2: 7_351_100, a3: 2_070_300, a4: 2_057_100, b1: 6_865_700, b2: 438_500, b3: 26_893_800, b4: 102_478_000, c: 1_219_900 })
    } else if str_eq(element, "Cr") {
        Some(ScatteringFactorParams { a1: 10_640_600, a2: 7_353_700, a3: 3_324_000, a4: 1_492_200, b1: 6_103_800, b2: 392_000, b3: 20_262_600, b4: 98_739_900, c: 1_183_200 })
    } else if str_eq(element, "Mn") {
        Some(ScatteringFactorParams { a1: 11_281_900, a2: 7_357_300, a3: 3_019_300, a4: 2_244_100, b1: 5_340_900, b2: 343_200, b3: 17_867_400, b4: 83_754_300, c: 1_089_600 })
    } else if str_eq(element, "Fe") {
        Some(ScatteringFactorParams { a1: 11_769_500, a2: 7_357_300, a3: 3_522_200, a4: 2_304_500, b1: 4_761_100, b2: 307_200, b3: 15_353_500, b4: 76_880_500, c: 1_036_900 })
    } else if str_eq(element, "Co") {
        Some(ScatteringFactorParams { a1: 12_284_100, a2: 7_340_900, a3: 4_003_400, a4: 2_348_800, b1: 4_279_100, b2: 278_400, b3: 13_535_900, b4: 71_169_200, c: 1_011_800 })
    } else if str_eq(element, "Ni") {
        Some(ScatteringFactorParams { a1: 12_837_600, a2: 7_292_000, a3: 4_443_800, a4: 2_380_000, b1: 3_878_500, b2: 256_500, b3: 12_176_300, b4: 66_342_100, c: 1_034_100 })
    } else if str_eq(element, "Cu") {
        Some(ScatteringFactorParams { a1: 13_338_000, a2: 7_167_600, a3: 5_615_800, a4: 1_673_500, b1: 3_582_800, b2: 247_000, b3: 11_396_600, b4: 64_812_600, c: 1_191_000 })
    } else if str_eq(element, "Zn") {
        Some(ScatteringFactorParams { a1: 14_074_300, a2: 7_031_800, a3: 5_165_200, a4: 2_410_000, b1: 3_265_500, b2: 233_300, b3: 10_316_300, b4: 58_709_700, c: 1_304_100 })
    } else if str_eq(element, "Ga") {
        Some(ScatteringFactorParams { a1: 15_235_400, a2: 6_700_600, a3: 4_359_100, a4: 2_962_300, b1: 3_066_900, b2: 241_200, b3: 10_780_500, b4: 61_413_500, c: 1_718_900 })
    } else if str_eq(element, "Ge") {
        Some(ScatteringFactorParams { a1: 16_081_600, a2: 6_374_700, a3: 3_706_800, a4: 3_683_000, b1: 2_850_900, b2: 251_600, b3: 11_446_800, b4: 54_762_500, c: 2_131_300 })
    } else if str_eq(element, "As") {
        Some(ScatteringFactorParams { a1: 16_672_300, a2: 6_070_100, a3: 3_431_300, a4: 4_277_900, b1: 2_634_500, b2: 264_700, b3: 12_947_900, b4: 47_797_200, c: 2_531_000 })
    } else if str_eq(element, "Se") {
        Some(ScatteringFactorParams { a1: 17_000_600, a2: 5_819_600, a3: 3_973_100, a4: 4_354_300, b1: 2_409_800, b2: 272_600, b3: 15_237_200, b4: 43_816_300, c: 2_840_900 })
    } else if str_eq(element, "Br") {
        Some(ScatteringFactorParams { a1: 17_178_900, a2: 5_235_800, a3: 5_637_700, a4: 3_985_100, b1: 2_172_300, b2: 16_579_600, b3: 260_900, b4: 41_432_800, c: 2_955_700 })
    } else if str_eq(element, "Rb") {
        Some(ScatteringFactorParams { a1: 17_581_600, a2: 7_659_800, a3: 5_898_100, a4: 2_781_700, b1: 1_713_900, b2: 14_795_700, b3: 160_300, b4: 31_208_700, c: 2_078_200 })
    } else if str_eq(element, "Sr") {
        Some(ScatteringFactorParams { a1: 17_566_300, a2: 9_818_400, a3: 5_422_000, a4: 2_669_400, b1: 1_556_400, b2: 14_098_800, b3: 166_400, b4: 132_376_000, c: 2_506_400 })
    } else if str_eq(element, "Y") {
        Some(ScatteringFactorParams { a1: 17_776_000, a2: 10_294_600, a3: 5_726_300, a4: 3_265_600, b1: 1_402_900, b2: 12_800_600, b3: 125_500, b4: 104_354_000, c: 1_934_100 })
    } else if str_eq(element, "Zr") {
        Some(ScatteringFactorParams { a1: 17_876_500, a2: 10_948_000, a3: 5_417_300, a4: 3_657_700, b1: 1_276_100, b2: 11_916_000, b3: 117_600, b4: 87_662_700, c: 2_069_000 })
    } else if str_eq(element, "Nb") {
        Some(ScatteringFactorParams { a1: 17_614_200, a2: 12_014_400, a3: 4_041_800, a4: 3_533_400, b1: 1_188_600, b2: 11_766_000, b3: 204_700, b4: 69_795_700, c: 3_755_300 })
    } else if str_eq(element, "Mo") {
        Some(ScatteringFactorParams { a1: 3_702_500, a2: 17_235_600, a3: 12_887_600, a4: 3_742_900, b1: 277_200, b2: 1_095_800, b3: 11_004_000, b4: 61_658_400, c: 4_387_500 })
    } else if str_eq(element, "Ag") {
        Some(ScatteringFactorParams { a1: 19_280_800, a2: 16_688_500, a3: 4_804_500, a4: 1_046_300, b1: 644_600, b2: 7_472_600, b3: 24_660_500, b4: 99_815_600, c: 5_179_000 })
    } else if str_eq(element, "Ba") {
        Some(ScatteringFactorParams { a1: 20_336_100, a2: 19_297_000, a3: 10_888_000, a4: 2_695_900, b1: 3_216_000, b2: 275_600, b3: 20_207_300, b4: 167_202_000, c: 2_773_100 })
    } else if str_eq(element, "La") {
        Some(ScatteringFactorParams { a1: 20_578_000, a2: 19_599_000, a3: 11_372_700, a4: 3_287_900, b1: 2_948_000, b2: 244_000, b3: 18_772_600, b4: 133_124_000, c: 2_146_100 })
    } else if str_eq(element, "Ce") {
        Some(ScatteringFactorParams { a1: 21_167_100, a2: 19_769_500, a3: 11_851_300, a4: 3_330_300, b1: 2_812_900, b2: 226_800, b3: 17_608_300, b4: 127_113_000, c: 1_862_300 })
    } else if str_eq(element, "Au") {
        Some(ScatteringFactorParams { a1: 16_881_900, a2: 18_591_300, a3: 25_558_200, a4: 5_860_000, b1: 461_100, b2: 8_621_600, b3: 1_482_600, b4: 36_395_600, c: 12_065_800 })
    } else if str_eq(element, "Pb") {
        Some(ScatteringFactorParams { a1: 31_061_700, a2: 13_063_700, a3: 18_442_000, a4: 5_969_600, b1: 690_200, b2: 2_357_600, b3: 8_618_000, b4: 47_257_900, c: 13_411_800 })
    } else if str_eq(element, "Bi") {
        Some(ScatteringFactorParams { a1: 33_368_900, a2: 12_951_000, a3: 16_587_700, a4: 6_469_200, b1: 704_000, b2: 2_923_800, b3: 8_793_700, b4: 48_009_300, c: 13_578_200 })
    } else {
        None
    }
}

/// The analytic scattering factor of one parameter set at a given `s`, in
/// micro-units.
#[verifier::opaque]
pub open spec fn spec_eval_params(p: ScatteringFactorParams, s: i64) -> i64 {
    let s2 = spec_mul_fx(s, s);
    let f1 = spec_add_fx(p.c, spec_mul_fx(p.a1, spec_exp_neg_fx(spec_mul_fx(p.b1, s2))));
    let f2 = spec_add_fx(f1, spec_mul_fx(p.a2, spec_exp_neg_fx(spec_mul_fx(p.b2, s2))));
    let f3 = spec_add_fx(f2, spec_mul_fx(p.a3, spec_exp_neg_fx(spec_mul_fx(p.b3, s2))));
    spec_add_fx(f3, spec_mul_fx(p.a4, spec_exp_neg_fx(spec_mul_fx(p.b4, s2))))
}

impl ScatteringFactorParams {
    /// Evaluate `f(s) = c + sum a_i exp(-b_i s^2)` at `s = sin(theta) /
    /// wavelength`, all in micro-units.
    pub fn calculate(&self, s: i64) -> (r: i64)
        ensures
            r == spec_eval_params(*self, s),
    {
        proof {
            reveal(spec_eval_params);
        }
        let s2: i64 = fx_mul(s, s);
        let mut f: i64 = self.c;
        f = fx_add(f, fx_mul(self.a1, exp_neg_fx(fx_mul(self.b1, s2))));
        f = fx_add(f, fx_mul(self.a2, exp_neg_fx(fx_mul(self.b2, s2))));
        f = fx_add(f, fx_mul(self.a3, exp_neg_fx(fx_mul(self.b3, s2))));
        f = fx_add(f, fx_mul(self.a4, exp_neg_fx(fx_mul(self.b4, s2))));
        f
    }
}

/// The lookup policy over a symbol: the exact symbol first, then its first
/// two characters, then its first character.
#[verifier::opaque]
pub open spec fn spec_lookup(sym: Seq<char>) -> Option<ScatteringFactorParams> {
    if spec_table(sym) is Some {
        spec_table(sym)
    } else {
        let l2 = if sym.len() >= 2 { 2int } else { sym.len() as int };
        if spec_table(sym.subrange(0, l2)) is Some {
            spec_table(sym.subrange(0, l2))
        } else {
            let l1 = if sym.len() >= 1 { 1int } else { 0int };
            spec_table(sym.subrange(0, l1))
        }
    }
}

/// Parameters for an element symbol, degrading from an exact match to a
/// two-character and then a one-character prefix; `None` if nothing matches.
pub fn get_scattering_factor(element: &str) -> (r: Option<ScatteringFactorParams>)
    ensures
        r == spec_lookup(element@),
{
    proof {
        reveal(spec_lookup);
    }
    let direct = lookup_table(element);
    if direct.is_some() {
        return direct;
    }
    let len: usize = element.unicode_len();
    let l2: usize = if len >= 2 { 2 } else { len };
    let p2 = element.substring_char(0, l2);
    let d2 = lookup_table(p2);
    if d2.is_some() {
        return d2;
    }
    let l1: usize = if len >= 1 { 1 } else { 0 };
    let p1 = element.substring_char(0, l1);
    lookup_table(p1)
}

/// The scattering strength an atom labelled `sym` contributes at `s`: the
/// analytic form of the element it resolves to, or zero when the symbol is
/// unknown.
#[verifier::opaque]
pub open spec fn spec_scatter(sym: Seq<char>, s: i64) -> i64 {
    match spec_lookup(sym) {
        Some(p) => spec_eval_params(p, s),
        None => 0,
    }
}

/// The scattering factor of an element symbol at `s`, in micro-units; an
/// unrecognized symbol contributes exactly zero.
pub fn calculate_scattering_factor(element: &str, s: i64) -> (r: i64)
    ensures
        r == spec_scatter(element@, s),
{
    proof {
        reveal(spec_scatter);
    }
    match get_scattering_factor(element) {
        Some(p) => p.calculate(s),
        None => 0,
    }
}

/// An unrecognized symbol scatters with strength zero at every `s`: the
/// zero-weight fallback is silent and total, never an error.
pub proof fn lemma_unknown_symbol_scatters_zero(sym: Seq<char>, s: i64)
    requires
        spec_lookup(sym) is None,
    ensures
        spec_scatter(sym, s) == 0,
{
    reveal(spec_scatter);
}

/// A recognized symbol scatters with its table entry's analytic form at
/// every `s`.
pub proof fn lemma_known_symbol_scatters(sym: Seq<char>, s: i64, p: ScatteringFactorParams)
    requires
        spec_lookup(sym) == Some(p),
    ensures
        spec_scatter(sym, s) == spec_eval_params(p, s),
{
    reveal(spec_scatter);
}

} // verus!
