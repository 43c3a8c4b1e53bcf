//! Barometric altitude and vertical speed (frame type 0x09).
use vstd::prelude::*;

use crate::packets::wire::{be16, be16_at, get_be16, lemma_be16_round_trip, lemma_i8_cast, put_be16, splice};
use crate::packets::{CrsfPacket, PacketType};
use vstd::math::abs;
use crate::CrsfParsingError;

verus! {

/// Barometric altitude and vertical speed, packed into three bytes.
///
/// Altitude: with the top bit clear, decimetres plus 10000 (0 is -1000 m);
/// with the top bit set, whole metres in the low 15 bits.
/// Vertical speed: a signed logarithmic code, decoded through
/// [`vspeed_table`].
#[derive(Default, Clone, Debug, PartialEq, Structural)]
pub struct BaroAltitude {
    /// Packed altitude; see [`BaroAltitude::get_altitude_dm`].
    pub altitude_packed: u16,
    /// Packed vertical speed; see [`BaroAltitude::get_vertical_speed_cm_s`].
    pub vertical_speed_packed: i8,
}

/// Vertical speed in cm/s of each packed value, indexed by the packed value
/// plus 128. The entries are `(e^(|p| * 0.026) - 1) * 100 * signum(p)`,
/// truncated.
#[verifier::opaque]
pub open spec fn vspeed_table() -> Seq<i16> {
    seq![
    -2688i16, -2616i16, -2546i16, -2479i16, -2412i16, -2348i16, -2285i16, -2224i16, -2164i16, -2106i16, -2049i16,
    -1994i16, -1940i16, -1888i16, -1837i16, -1787i16, -1739i16, -1692i16, -1646i16, -1601i16, -1557i16, -1515i16,
    -1473i16, -1433i16, -1393i16, -1355i16, -1318i16, -1281i16, -1246i16, -1211i16, -1178i16, -1145i16, -1113i16,
    -1082i16, -1051i16, -1022i16, -993i16, -965i16, -938i16, -911i16, -885i16, -860i16, -835i16, -811i16, -788i16,
    -765i16, -743i16, -721i16, -700i16, -679i16, -659i16, -640i16, -621i16, -602i16, -584i16, -567i16, -550i16, -533i16,
    -517i16, -501i16, -485i16, -470i16, -456i16, -441i16, -428i16, -414i16, -401i16, -388i16, -375i16, -363i16, -351i16,
    -340i16, -328i16, -317i16, -307i16, -296i16, -286i16, -276i16, -266i16, -257i16, -248i16, -239i16, -230i16, -222i16,
    -213i16, -205i16, -198i16, -190i16, -182i16, -175i16, -168i16, -161i16, -154i16, -148i16, -142i16, -135i16, -129i16,
    -123i16, -118i16, -112i16, -107i16, -101i16, -96i16, -91i16, -86i16, -81i16, -77i16, -72i16, -68i16, -63i16, -59i16, -55i16,
    -51i16, -47i16, -43i16, -40i16, -36i16, -33i16, -29i16, -26i16, -23i16, -19i16, -16i16, -13i16, -10i16, -8i16, -5i16, -2i16, 0i16,
    2i16, 5i16, 8i16, 10i16, 13i16, 16i16, 19i16, 23i16, 26i16, 29i16, 33i16, 36i16, 40i16, 43i16, 47i16, 51i16, 55i16, 59i16, 63i16, 68i16,
    72i16, 77i16, 81i16, 86i16, 91i16, 96i16, 101i16, 107i16, 112i16, 118i16, 123i16, 129i16, 135i16, 142i16, 148i16, 154i16, 161i16,
    168i16, 175i16, 182i16, 190i16, 198i16, 205i16, 213i16, 222i16, 230i16, 239i16, 248i16, 257i16, 266i16, 276i16, 286i16, 296i16,
    307i16, 317i16, 328i16, 340i16, 351i16, 363i16, 375i16, 388i16, 401i16, 414i16, 428i16, 441i16, 456i16, 470i16, 485i16, 501i16,
    517i16, 533i16, 550i16, 567i16, 584i16, 602i16, 621i16, 640i16, 659i16, 679i16, 700i16, 721i16, 743i16, 765i16, 788i16, 811i16,
    835i16, 860i16, 885i16, 911i16, 938i16, 965i16, 993i16, 1022i16, 1051i16, 1082i16, 1113i16, 1145i16, 1178i16, 1211i16,
    1246i16, 1281i16, 1318i16, 1355i16, 1393i16, 1433i16, 1473i16, 1515i16, 1557i16, 1601i16, 1646i16, 1692i16, 1739i16,
    1787i16, 1837i16, 1888i16, 1940i16, 1994i16, 2049i16, 2106i16, 2164i16, 2224i16, 2285i16, 2348i16, 2412i16, 2479i16,
    2546i16, 2616i16
    ]
}

fn vspeed_decode_lut() -> (r: [i16; 256])
    ensures
        r@ == vspeed_table(),
{
    let t: [i16; 256] = [
    -2688, -2616, -2546, -2479, -2412, -2348, -2285, -2224, -2164, -2106, -2049,
    -1994, -1940, -1888, -1837, -1787, -1739, -1692, -1646, -1601, -1557, -1515,
    -1473, -1433, -1393, -1355, -1318, -1281, -1246, -1211, -1178, -1145, -1113,
    -1082, -1051, -1022, -993, -965, -938, -911, -885, -860, -835, -811, -788,
    -765, -743, -721, -700, -679, -659, -640, -621, -602, -584, -567, -550, -533,
    -517, -501, -485, -470, -456, -441, -428, -414, -401, -388, -375, -363, -351,
    -340, -328, -317, -307, -296, -286, -276, -266, -257, -248, -239, -230, -222,
    -213, -205, -198, -190, -182, -175, -168, -161, -154, -148, -142, -135, -129,
    -123, -118, -112, -107, -101, -96, -91, -86, -81, -77, -72, -68, -63, -59, -55,
    -51, -47, -43, -40, -36, -33, -29, -26, -23, -19, -16, -13, -10, -8, -5, -2, 0,
    2, 5, 8, 10, 13, 16, 19, 23, 26, 29, 33, 36, 40, 43, 47, 51, 55, 59, 63, 68,
    72, 77, 81, 86, 91, 96, 101, 107, 112, 118, 123, 129, 135, 142, 148, 154, 161,
    168, 175, 182, 190, 198, 205, 213, 222, 230, 239, 248, 257, 266, 276, 286, 296,
    307, 317, 328, 340, 351, 363, 375, 388, 401, 414, 428, 441, 456, 470, 485, 501,
    517, 533, 550, 567, 584, 602, 621, 640, 659, 679, 700, 721, 743, 765, 788, 811,
    835, 860, 885, 911, 938, 965, 993, 1022, 1051, 1082, 1113, 1145, 1178, 1211,
    1246, 1281, 1318, 1355, 1393, 1433, 1473, 1515, 1557, 1601, 1646, 1692, 1739,
    1787, 1837, 1888, 1940, 1994, 2049, 2106, 2164, 2224, 2285, 2348, 2412, 2479,
    2546, 2616
    ];
    assert(t@ =~= vspeed_table()) by {
        reveal(vspeed_table);
    }
    t
}

/// Altitude in decimetres of a packed altitude.
pub open spec fn spec_altitude_dm(packed: u16) -> i32 {
    if packed >= 0x8000 {
        ((packed - 0x8000) * 10) as i32
    } else {
        (packed - 10000) as i32
    }
}

/// Packed altitude of an altitude in decimetres: below -1000 m it saturates
/// to 0, above 32763.5 m to 0xfffe; below 2276.8 m it keeps decimetres, and
/// above it rounds to whole metres.
pub open spec fn spec_altitude_packed(altitude_dm: i32) -> u16 {
    if altitude_dm < -10000 {
        0
    } else if altitude_dm > 0x7ffe * 10 - 5 {
        0xfffe
    } else if altitude_dm < 0x8000 - 10000 {
        (altitude_dm + 10000) as u16
    } else {
        ((altitude_dm + 5) / 10 + 0x8000) as u16
    }
}

/// The magnitude of a speed, as an integer (32768 for `i16::MIN`).
pub open spec fn vspeed_magnitude(v: i16) -> int {
    if v < 0 {
        -v
    } else {
        v as int
    }
}

/// The first index from `i` up to 255 whose table entry is at least `a`;
/// 255 when there is none.
pub open spec fn first_at_least(a: int, i: int) -> int
    decreases 255 - i,
{
    if i >= 255 || vspeed_table()[i] >= a {
        i
    } else {
        first_at_least(a, i + 1)
    }
}

/// The code chosen at boundary `lo`: the entry below it when that is strictly
/// nearer to the magnitude of `v`, else `lo` itself; then given the sign of
/// `v`.
pub open spec fn vspeed_code(v: i16, lo: int) -> i8 {
    let a = vspeed_magnitude(v);
    let below_is_nearer = lo > 128 && a - vspeed_table()[lo - 1] < abs(vspeed_table()[lo] - a);
    let idx = if below_is_nearer {
        lo - 1
    } else {
        lo
    };
    if v > 0 {
        (idx - 128) as i8
    } else {
        (128 - idx) as i8
    }
}

/// The packed value of a vertical speed: 0 for 0; otherwise the code, with
/// the speed's sign, of the non-negative table entry nearest to the speed's
/// magnitude, the upper one on a tie.
pub open spec fn spec_vspeed_packed(v: i16) -> i8 {
    if v == 0 {
        0
    } else {
        vspeed_code(v, first_at_least(vspeed_magnitude(v), 128))
    }
}

/// Every table entry from index `i` on is below the next one.
spec fn steps_from(i: int) -> bool
    decreases 255 - i,
{
    i >= 255 || (vspeed_table()[i] < vspeed_table()[i + 1] && steps_from(i + 1))
}

/// The entries of codes `k` to 127 and of their negations are opposite.
spec fn odd_from(k: int) -> bool
    decreases 128 - k,
{
    k >= 128 || (vspeed_table()[128 - k] == -vspeed_table()[128 + k] && odd_from(k + 1))
}

proof fn lemma_steps_from(i: int, j: int)
    requires
        steps_from(i),
        0 <= i <= j < 255,
    ensures
        vspeed_table()[j] < vspeed_table()[j + 1],
    decreases j - i,
{
    if i < j {
        lemma_steps_from(i + 1, j);
    }
}

proof fn lemma_odd_from(k: int, j: int)
    requires
        odd_from(k),
        0 <= k <= j <= 127,
    ensures
        vspeed_table()[128 - j] == -vspeed_table()[128 + j],
    decreases j - k,
{
    if k < j {
        lemma_odd_from(k + 1, j);
    }
}

#[verifier::rlimit(100)]
#[verifier::spinoff_prover]
proof fn lemma_vspeed_table_steps()
    ensures
        forall|i: int| 0 <= i < 255 ==> #[trigger] vspeed_table()[i] < vspeed_table()[i + 1],
        forall|k: int| 0 <= k <= 127 ==> #[trigger] vspeed_table()[128 - k] == -vspeed_table()[128 + k],
        vspeed_table().len() == 256,
        vspeed_table()[128] == 0,
        vspeed_table()[0] == -2688,
        vspeed_table()[255] == 2616,
{
    reveal(vspeed_table);
    assert(steps_from(255));
    assert(steps_from(254));
    assert(steps_from(253));
    assert(steps_from(252));
    assert(steps_from(251));
    assert(steps_from(250));
    assert(steps_from(249));
    assert(steps_from(248));
    assert(steps_from(247));
    assert(steps_from(246));
    assert(steps_from(245));
    assert(steps_from(244));
    assert(steps_from(243));
    assert(steps_from(242));
    assert(steps_from(241));
    assert(steps_from(240));
    assert(steps_from(239));
    assert(steps_from(238));
    assert(steps_from(237));
    assert(steps_from(236));
    assert(steps_from(235));
    assert(steps_from(234));
    assert(steps_from(233));
    assert(steps_from(232));
    assert(steps_from(231));
    assert(steps_from(230));
    assert(steps_from(229));
    assert(steps_from(228));
    assert(steps_from(227));
    assert(steps_from(226));
    assert(steps_from(225));
    assert(steps_from(224));
    assert(steps_from(223));
    assert(steps_from(222));
    assert(steps_from(221));
    assert(steps_from(220));
    assert(steps_from(219));
    assert(steps_from(218));
    assert(steps_from(217));
    assert(steps_from(216));
    assert(steps_from(215));
    assert(steps_from(214));
    assert(steps_from(213));
    assert(steps_from(212));
    assert(steps_from(211));
    assert(steps_from(210));
    assert(steps_from(209));
    assert(steps_from(208));
    assert(steps_from(207));
    assert(steps_from(206));
    assert(steps_from(205));
    assert(steps_from(204));
    assert(steps_from(203));
    assert(steps_from(202));
    assert(steps_from(201));
    assert(steps_from(200));
    assert(steps_from(199));
    assert(steps_from(198));
    assert(steps_from(197));
    assert(steps_from(196));
    assert(steps_from(195));
    assert(steps_from(194));
    assert(steps_from(193));
    assert(steps_from(192));
    assert(steps_from(191));
    assert(steps_from(190));
    assert(steps_from(189));
    assert(steps_from(188));
    assert(steps_from(187));
    assert(steps_from(186));
    assert(steps_from(185));
    assert(steps_from(184));
    assert(steps_from(183));
    assert(steps_from(182));
    assert(steps_from(181));
    assert(steps_from(180));
    assert(steps_from(179));
    assert(steps_from(178));
    assert(steps_from(177));
    assert(steps_from(176));
    assert(steps_from(175));
    assert(steps_from(174));
    assert(steps_from(173));
    assert(steps_from(172));
    assert(steps_from(171));
    assert(steps_from(170));
    assert(steps_from(169));
    assert(steps_from(168));
    assert(steps_from(167));
    assert(steps_from(166));
    assert(steps_from(165));
    assert(steps_from(164));
    assert(steps_from(163));
    assert(steps_from(162));
    assert(steps_from(161));
    assert(steps_from(160));
    assert(steps_from(159));
    assert(steps_from(158));
    assert(steps_from(157));
    assert(steps_from(156));
    assert(steps_from(155));
    assert(steps_from(154));
    assert(steps_from(153));
    assert(steps_from(152));
    assert(steps_from(151));
    assert(steps_from(150));
    assert(steps_from(149));
    assert(steps_from(148));
    assert(steps_from(147));
    assert(steps_from(146));
    assert(steps_from(145));
    assert(steps_from(144));
    assert(steps_from(143));
    assert(steps_from(142));
    assert(steps_from(141));
    assert(steps_from(140));
    assert(steps_from(139));
    assert(steps_from(138));
    assert(steps_from(137));
    assert(steps_from(136));
    assert(steps_from(135));
    assert(steps_from(134));
    assert(steps_from(133));
    assert(steps_from(132));
    assert(steps_from(131));
    assert(steps_from(130));
    assert(steps_from(129));
    assert(steps_from(128));
    assert(steps_from(127));
    assert(steps_from(126));
    assert(steps_from(125));
    assert(steps_from(124));
    assert(steps_from(123));
    assert(steps_from(122));
    assert(steps_from(121));
    assert(steps_from(120));
    assert(steps_from(119));
    assert(steps_from(118));
    assert(steps_from(117));
    assert(steps_from(116));
    assert(steps_from(115));
    assert(steps_from(114));
    assert(steps_from(113));
    assert(steps_from(112));
    assert(steps_from(111));
    assert(steps_from(110));
    assert(steps_from(109));
    assert(steps_from(108));
    assert(steps_from(107));
    assert(steps_from(106));
    assert(steps_from(105));
    assert(steps_from(104));
    assert(steps_from(103));
    assert(steps_from(102));
    assert(steps_from(101));
    assert(steps_from(100));
    assert(steps_from(99));
    assert(steps_from(98));
    assert(steps_from(97));
    assert(steps_from(96));
    assert(steps_from(95));
    assert(steps_from(94));
    assert(steps_from(93));
    assert(steps_from(92));
    assert(steps_from(91));
    assert(steps_from(90));
    assert(steps_from(89));
    assert(steps_from(88));
    assert(steps_from(87));
    assert(steps_from(86));
    assert(steps_from(85));
    assert(steps_from(84));
    assert(steps_from(83));
    assert(steps_from(82));
    assert(steps_from(81));
    assert(steps_from(80));
    assert(steps_from(79));
    assert(steps_from(78));
    assert(steps_from(77));
    assert(steps_from(76));
    assert(steps_from(75));
    assert(steps_from(74));
    assert(steps_from(73));
    assert(steps_from(72));
    assert(steps_from(71));
    assert(steps_from(70));
    assert(steps_from(69));
    assert(steps_from(68));
    assert(steps_from(67));
    assert(steps_from(66));
    assert(steps_from(65));
    assert(steps_from(64));
    assert(steps_from(63));
    assert(steps_from(62));
    assert(steps_from(61));
    assert(steps_from(60));
    assert(steps_from(59));
    assert(steps_from(58));
    assert(steps_from(57));
    assert(steps_from(56));
    assert(steps_from(55));
    assert(steps_from(54));
    assert(steps_from(53));
    assert(steps_from(52));
    assert(steps_from(51));
    assert(steps_from(50));
    assert(steps_from(49));
    assert(steps_from(48));
    assert(steps_from(47));
    assert(steps_from(46));
    assert(steps_from(45));
    assert(steps_from(44));
    assert(steps_from(43));
    assert(steps_from(42));
    assert(steps_from(41));
    assert(steps_from(40));
    assert(steps_from(39));
    assert(steps_from(38));
    assert(steps_from(37));
    assert(steps_from(36));
    assert(steps_from(35));
    assert(steps_from(34));
    assert(steps_from(33));
    assert(steps_from(32));
    assert(steps_from(31));
    assert(steps_from(30));
    assert(steps_from(29));
    assert(steps_from(28));
    assert(steps_from(27));
    assert(steps_from(26));
    assert(steps_from(25));
    assert(steps_from(24));
    assert(steps_from(23));
    assert(steps_from(22));
    assert(steps_from(21));
    assert(steps_from(20));
    assert(steps_from(19));
    assert(steps_from(18));
    assert(steps_from(17));
    assert(steps_from(16));
    assert(steps_from(15));
    assert(steps_from(14));
    assert(steps_from(13));
    assert(steps_from(12));
    assert(steps_from(11));
    assert(steps_from(10));
    assert(steps_from(9));
    assert(steps_from(8));
    assert(steps_from(7));
    assert(steps_from(6));
    assert(steps_from(5));
    assert(steps_from(4));
    assert(steps_from(3));
    assert(steps_from(2));
    assert(steps_from(1));
    assert(steps_from(0));
    assert(odd_from(128));
    assert(odd_from(127));
    assert(odd_from(126));
    assert(odd_from(125));
    assert(odd_from(124));
    assert(odd_from(123));
    assert(odd_from(122));
    assert(odd_from(121));
    assert(odd_from(120));
    assert(odd_from(119));
    assert(odd_from(118));
    assert(odd_from(117));
    assert(odd_from(116));
    assert(odd_from(115));
    assert(odd_from(114));
    assert(odd_from(113));
    assert(odd_from(112));
    assert(odd_from(111));
    assert(odd_from(110));
    assert(odd_from(109));
    assert(odd_from(108));
    assert(odd_from(107));
    assert(odd_from(106));
    assert(odd_from(105));
    assert(odd_from(104));
    assert(odd_from(103));
    assert(odd_from(102));
    assert(odd_from(101));
    assert(odd_from(100));
    assert(odd_from(99));
    assert(odd_from(98));
    assert(odd_from(97));
    assert(odd_from(96));
    assert(odd_from(95));
    assert(odd_from(94));
    assert(odd_from(93));
    assert(odd_from(92));
    assert(odd_from(91));
    assert(odd_from(90));
    assert(odd_from(89));
    assert(odd_from(88));
    assert(odd_from(87));
    assert(odd_from(86));
    assert(odd_from(85));
    assert(odd_from(84));
    assert(odd_from(83));
    assert(odd_from(82));
    assert(odd_from(81));
    assert(odd_from(80));
    assert(odd_from(79));
    assert(odd_from(78));
    assert(odd_from(77));
    assert(odd_from(76));
    assert(odd_from(75));
    assert(odd_from(74));
    assert(odd_from(73));
    assert(odd_from(72));
    assert(odd_from(71));
    assert(odd_from(70));
    assert(odd_from(69));
    assert(odd_from(68));
    assert(odd_from(67));
    assert(odd_from(66));
    assert(odd_from(65));
    assert(odd_from(64));
    assert(odd_from(63));
    assert(odd_from(62));
    assert(odd_from(61));
    assert(odd_from(60));
    assert(odd_from(59));
    assert(odd_from(58));
    assert(odd_from(57));
    assert(odd_from(56));
    assert(odd_from(55));
    assert(odd_from(54));
    assert(odd_from(53));
    assert(odd_from(52));
    assert(odd_from(51));
    assert(odd_from(50));
    assert(odd_from(49));
    assert(odd_from(48));
    assert(odd_from(47));
    assert(odd_from(46));
    assert(odd_from(45));
    assert(odd_from(44));
    assert(odd_from(43));
    assert(odd_from(42));
    assert(odd_from(41));
    assert(odd_from(40));
    assert(odd_from(39));
    assert(odd_from(38));
    assert(odd_from(37));
    assert(odd_from(36));
    assert(odd_from(35));
    assert(odd_from(34));
    assert(odd_from(33));
    assert(odd_from(32));
    assert(odd_from(31));
    assert(odd_from(30));
    assert(odd_from(29));
    assert(odd_from(28));
    assert(odd_from(27));
    assert(odd_from(26));
    assert(odd_from(25));
    assert(odd_from(24));
    assert(odd_from(23));
    assert(odd_from(22));
    assert(odd_from(21));
    assert(odd_from(20));
    assert(odd_from(19));
    assert(odd_from(18));
    assert(odd_from(17));
    assert(odd_from(16));
    assert(odd_from(15));
    assert(odd_from(14));
    assert(odd_from(13));
    assert(odd_from(12));
    assert(odd_from(11));
    assert(odd_from(10));
    assert(odd_from(9));
    assert(odd_from(8));
    assert(odd_from(7));
    assert(odd_from(6));
    assert(odd_from(5));
    assert(odd_from(4));
    assert(odd_from(3));
    assert(odd_from(2));
    assert(odd_from(1));
    assert(odd_from(0));
    assert forall|i: int| 0 <= i < 255 implies #[trigger] vspeed_table()[i] < vspeed_table()[i + 1] by {
        lemma_steps_from(0, i);
    }
    assert forall|k: int| 0 <= k <= 127 implies #[trigger] vspeed_table()[128 - k] == -vspeed_table()[128 + k] by {
        lemma_odd_from(0, k);
    }
}

/// The table increases strictly.
pub proof fn lemma_vspeed_table_increasing(i: int, j: int)
    requires
        0 <= i < j <= 255,
    ensures
        vspeed_table()[i] < vspeed_table()[j],
    decreases j - i,
{
    lemma_vspeed_table_steps();
    if j > i + 1 {
        lemma_vspeed_table_increasing(i, j - 1);
    }
}

proof fn lemma_first_at_least(a: int, i: int, lo: int)
    requires
        128 <= i <= lo <= 255,
        lo == 255 || vspeed_table()[lo] >= a,
        forall|j: int| i <= j < lo ==> #[trigger] vspeed_table()[j] < a,
    ensures
        first_at_least(a, i) == lo,
    decreases lo - i,
{
    if i < lo {
        lemma_first_at_least(a, i + 1, lo);
    }
}

/// Facts on the search boundary of a magnitude `a` of at least 1: every
/// entry from code 0 below it is below `a`, and every entry from it on is at
/// least its own.
proof fn lemma_boundary_facts(a: int)
    requires
        a >= 1,
    ensures
        ({
            let lo = first_at_least(a, 128);
            &&& 129 <= lo <= 255
            &&& forall|j: int| 0 <= j < lo ==> #[trigger] vspeed_table()[j] < a
            &&& lo == 255 || vspeed_table()[lo] >= a
        }),
{
    lemma_vspeed_table_steps();
    lemma_first_at_least_facts(a, 128);
    let lo = first_at_least(a, 128);
    assert forall|j: int| 0 <= j < lo implies #[trigger] vspeed_table()[j] < a by {
        if j < 128 {
            lemma_vspeed_table_increasing(j, 128);
        }
    }
}

proof fn lemma_first_at_least_facts(a: int, i: int)
    requires
        128 <= i <= 255,
    ensures
        i <= first_at_least(a, i) <= 255,
        first_at_least(a, i) == 255 || vspeed_table()[first_at_least(a, i)] >= a,
        forall|j: int| i <= j < first_at_least(a, i) ==> #[trigger] vspeed_table()[j] < a,
    decreases 255 - i,
{
    if i < 255 && vspeed_table()[i] < a {
        lemma_first_at_least_facts(a, i + 1);
    }
}

impl BaroAltitude {
    /// A packet from packed values; never fails.
    pub fn new(altitude_packed: u16, vertical_speed_packed: i8) -> (r: Result<Self, CrsfParsingError>)
        ensures
            r == Ok::<Self, CrsfParsingError>(BaroAltitude { altitude_packed, vertical_speed_packed }),
    {
        Ok(Self { altitude_packed, vertical_speed_packed })
    }

    /// The altitude in decimetres.
    pub fn get_altitude_dm(&self) -> (r: i32)
        ensures
            r == spec_altitude_dm(self.altitude_packed),
    {
        let packed = self.altitude_packed;
        if (packed & 0x8000u16) != 0 {
            let low = packed & 0x7fffu16;
            assert(low == packed - 0x8000 && packed >= 0x8000) by (bit_vector)
                requires
                    low == packed & 0x7fffu16,
                    (packed & 0x8000u16) != 0,
            ;
            (low as i32) * 10
        } else {
            assert(packed < 0x8000) by (bit_vector)
                requires
                    (packed & 0x8000u16) == 0,
            ;
            (packed as i32) - 10000
        }
    }

    /// Packs an altitude given in decimetres.
    pub fn get_altitude_packed(altitude_dm: i32) -> (r: u16)
        ensures
            r == spec_altitude_packed(altitude_dm),
    {
        let alt_min_dm: i32 = 10000;
        let alt_threshold_dm: i32 = 0x8000 - alt_min_dm;
        let alt_max_dm: i32 = 0x7ffe * 10 - 5;
        if altitude_dm < -alt_min_dm {
            0
        } else if altitude_dm > alt_max_dm {
            0xfffe
        } else if altitude_dm < alt_threshold_dm {
            (altitude_dm + alt_min_dm) as u16
        } else {
            let q = (altitude_dm + 5) / 10;
            assert(0 <= q < 0x8000);
            let packed = (q | 0x8000) as u16;
            assert(packed == (q + 0x8000) as u16) by (bit_vector)
                requires
                    0 <= q < 0x8000,
                    packed == (q | 0x8000) as u16,
            ;
            packed
        }
    }

    /// The vertical speed in cm/s: the table entry of the packed value.
    pub fn get_vertical_speed_cm_s(&self) -> (r: i16)
        ensures
            r == vspeed_table()[self.vertical_speed_packed + 128],
    {
        let lut = vspeed_decode_lut();
        lut[(self.vertical_speed_packed as i16 + 128) as usize]
    }

    /// Packs a vertical speed in cm/s: 0 for 0; otherwise the code whose
    /// table entry is nearest to the speed's magnitude, found by binary search
    /// over the non-negative codes, with the speed's sign.
    pub fn get_vertical_speed_packed(vertical_speed_cm_s: i16) -> (r: i8)
        ensures
            r == spec_vspeed_packed(vertical_speed_cm_s),
    {
        if vertical_speed_cm_s == 0 {
            return 0;
        }
        let lut = vspeed_decode_lut();
        let abs_val: i32 = if vertical_speed_cm_s < 0 {
            -(vertical_speed_cm_s as i32)
        } else {
            vertical_speed_cm_s as i32
        };
        let ghost a = vspeed_magnitude(vertical_speed_cm_s);
        let mut lo: usize = 128;
        let mut hi: usize = 255;
        while lo < hi
            invariant
                128 <= lo <= hi <= 255,
                lut@ == vspeed_table(),
                abs_val == a,
                lo == 128 || vspeed_table()[lo - 1] < a,
                hi == 255 || vspeed_table()[hi as int] >= a,
            decreases hi - lo,
        {
            let mid = lo + (hi - lo) / 2;
            if (lut[mid] as i32) < abs_val {
                lo = mid + 1;
            } else {
                hi = mid;
            }
        }
        proof {
            assert forall|j: int| 128 <= j < lo implies #[trigger] vspeed_table()[j] < a by {
                if j < lo - 1 {
                    lemma_vspeed_table_increasing(j, lo - 1);
                }
            }
            lemma_first_at_least(a, 128, lo as int);
        }
        if lo > 128 {
            let diff_lo = (lut[lo] as i32 - abs_val);
            let diff_lo = if diff_lo < 0 { -diff_lo } else { diff_lo };
            let diff_prev = (abs_val - lut[lo - 1] as i32);
            let diff_prev = if diff_prev < 0 { -diff_prev } else { diff_prev };
            if diff_prev < diff_lo {
                lo -= 1;
            }
        }
        let idx = (lo - 128) as i8;
        if vertical_speed_cm_s > 0 { idx } else { -idx }
    }
}

/// Decoding is odd, strictly increasing and bounded: the speeds of packed
/// values `p < q` are in order, every speed lies from -2688 to 2616 cm/s,
/// packed 0 is 0 cm/s, and packed values from -127 to 127 and their
/// negations decode to opposite speeds.
pub proof fn lemma_vspeed_decoded(p: i8, q: i8)
    ensures
        p < q ==> vspeed_table()[p + 128] < vspeed_table()[q + 128],
        -2688 <= vspeed_table()[p + 128] <= 2616,
        vspeed_table()[128] == 0,
        -127 <= p ==> vspeed_table()[128 - p] == -vspeed_table()[128 + p],
{
    let i: int = p + 128;
    let j: int = q + 128;
    assert(vspeed_table()[128] == 0 && vspeed_table()[0] == -2688 && vspeed_table()[255] == 2616) by {
        lemma_vspeed_table_steps();
    }
    if p < q {
        lemma_vspeed_table_increasing(i, j);
    }
    if i > 0 {
        lemma_vspeed_table_increasing(0, i);
    }
    if i < 255 {
        lemma_vspeed_table_increasing(i, 255);
    }
    if -127 <= p {
        let k: int = if p < 0 { -p } else { p as int };
        assert(vspeed_table()[128 - k] == -vspeed_table()[128 + k]) by {
            lemma_vspeed_table_steps();
        }
    }
}

/// Decoding a packed vertical speed from -127 to 127 and packing it again
/// gives the same packed value.
pub proof fn lemma_vspeed_decode_encode(p: i8)
    requires
        -127 <= p <= 127,
    ensures
        spec_vspeed_packed(vspeed_table()[p + 128]) == p,
{
    lemma_vspeed_table_steps();
    let k: int = if p < 0 { -p } else { p as int };
    if k > 0 {
        lemma_vspeed_table_increasing(128, 128 + k);
        assert forall|j: int| 128 <= j < 128 + k implies #[trigger] vspeed_table()[j] < vspeed_table()[128 + k] by {
            lemma_vspeed_table_increasing(j, 128 + k);
        }
        let e = vspeed_table()[128 + k];
        assert(e > 0);
        lemma_first_at_least(e as int, 128, 128 + k);
        assert(vspeed_table()[128 - k] == -vspeed_table()[128 + k]);
        if p < 0 {
            assert(p + 128 == 128 - k);
            assert(vspeed_table()[p + 128] == -e);
        } else {
            assert(p + 128 == 128 + k);
        }
        assert(vspeed_magnitude(vspeed_table()[p + 128]) == e);
    }
}

/// Packing picks a nearest code: for a positive speed the packed value is
/// from 0 to 127, and no non-negative code's table entry is nearer to the
/// speed.
pub proof fn lemma_vspeed_nearest(w: i16)
    requires
        w >= 1,
    ensures
        0 <= spec_vspeed_packed(w) <= 127,
        forall|k: int|
            0 <= k <= 127 ==> abs(vspeed_table()[128 + spec_vspeed_packed(w)] - w) <= abs(
                #[trigger] vspeed_table()[128 + k] - w,
            ),
{
    lemma_boundary_facts(w as int);
    let lo = first_at_least(w as int, 128);
    assert forall|k: int| 0 <= k <= 127 implies abs(vspeed_table()[128 + spec_vspeed_packed(w)] - w) <= abs(
        #[trigger] vspeed_table()[128 + k] - w,
    ) by {
        if 128 + k < lo - 1 {
            lemma_vspeed_table_increasing(128 + k, lo - 1);
        }
        if 128 + k > lo {
            lemma_vspeed_table_increasing(lo, 128 + k);
        }
    }
}

/// Packing is odd: a negative speed packs to the negated code of its
/// magnitude.
pub proof fn lemma_vspeed_odd(w: i16)
    requires
        w >= 1,
    ensures
        spec_vspeed_packed((-w) as i16) == -spec_vspeed_packed(w),
{
    lemma_boundary_facts(w as int);
}

/// An altitude from -1000 m up to 2276.7 m comes back unchanged from packing
/// and unpacking.
pub proof fn lemma_altitude_dm_round_trip_fine(altitude_dm: i32)
    requires
        -10000 <= altitude_dm < 0x8000 - 10000,
    ensures
        spec_altitude_dm(spec_altitude_packed(altitude_dm)) == altitude_dm,
{
}

/// An altitude from 2276.8 m up to 32763.5 m comes back within half a metre
/// from packing and unpacking.
pub proof fn lemma_altitude_dm_round_trip_coarse(altitude_dm: i32)
    requires
        0x8000 - 10000 <= altitude_dm <= 0x7ffe * 10 - 5,
    ensures
        altitude_dm - 5 < spec_altitude_dm(spec_altitude_packed(altitude_dm)) <= altitude_dm + 5,
{
}

impl View for BaroAltitude {
    type V = BaroAltitude;

    open spec fn view(&self) -> BaroAltitude {
        *self
    }
}

impl CrsfPacket for BaroAltitude {
    const PACKET_TYPE: PacketType = PacketType::BaroAltitude;
    const MIN_PAYLOAD_SIZE: usize = 3;

    open spec fn spec_to_bytes(&self) -> Seq<u8> {
        be16(self.altitude_packed) + seq![self.vertical_speed_packed as u8]
    }

    /// Exactly three bytes: the big-endian altitude and the speed code.
    open spec fn spec_from_bytes(data: Seq<u8>) -> Result<Self, CrsfParsingError> {
        if data.len() != 3 {
            Err(CrsfParsingError::InvalidPayloadLength)
        } else {
            Ok(BaroAltitude { altitude_packed: be16_at(data, 0), vertical_speed_packed: data[2] as i8 })
        }
    }

    open spec fn payload_readable(data: Seq<u8>) -> bool {
        true
    }

    fn to_bytes(&self, buffer: &mut [u8]) -> (r: Result<usize, CrsfParsingError>)
        ensures
            r is Err ==> final(buffer)@ == old(buffer)@,
    {
        self.validate_buffer_size(buffer)?;
        put_be16(buffer, 0, self.altitude_packed);
        buffer[2] = self.vertical_speed_packed as u8;
        assert(buffer@ =~= splice(old(buffer)@, 0, self.spec_to_bytes()));
        Ok(Self::MIN_PAYLOAD_SIZE)
    }

    fn from_bytes(data: &[u8]) -> (r: Result<Self, CrsfParsingError>) {
        if data.len() != Self::MIN_PAYLOAD_SIZE {
            return Err(CrsfParsingError::InvalidPayloadLength);
        }
        Ok(Self { altitude_packed: get_be16(data, 0), vertical_speed_packed: data[2] as i8 })
    }
}

/// Decoding the bytes of the packet gives the packet back.
pub proof fn lemma_baro_altitude_round_trip(p: BaroAltitude)
    ensures
        BaroAltitude::spec_from_bytes(p.spec_to_bytes()) == Ok::<BaroAltitude, CrsfParsingError>(p),
{
    lemma_be16_round_trip(p.altitude_packed);
    lemma_i8_cast(p.vertical_speed_packed);
    let b = p.spec_to_bytes();
    assert(b[0] == be16(p.altitude_packed)[0] && b[1] == be16(p.altitude_packed)[1]);
}

/// Barometric altitude travels as frame type 0x09.
pub proof fn lemma_baro_altitude_packet_type()
    ensures
        BaroAltitude::PACKET_TYPE == PacketType::BaroAltitude,
{
}

/// The barometric payload layout: the packed altitude in bytes 0 and 1,
/// big-endian, and the packed vertical speed in byte 2 (two's complement).
/// Exactly 3 bytes are read that way, and a packet is written that way.
pub proof fn lemma_baro_altitude_layout(d: Seq<u8>, p: BaroAltitude)
    ensures
        d.len() == 3 ==> (BaroAltitude::spec_from_bytes(d) matches Ok(v) && v.altitude_packed == d[0] * 0x100
            + d[1] && v.vertical_speed_packed as u8 == d[2]),
        d.len() != 3 ==> BaroAltitude::spec_from_bytes(d) is Err,
        ({
            let w = p.spec_to_bytes();
            &&& w.len() == 3
            &&& w[0] * 0x100 + w[1] == p.altitude_packed
            &&& w[2] as i8 == p.vertical_speed_packed
        }),
{
    if d.len() == 3 {
        crate::packets::wire::lemma_be16_at_value(d, 0);
        crate::packets::wire::lemma_u8_bits(d[2]);
    }
    let a = be16(p.altitude_packed);
    crate::packets::wire::lemma_be16_bytes(p.altitude_packed);
    lemma_i8_cast(p.vertical_speed_packed);
    let w = p.spec_to_bytes();
    assert(w[0] == a[0] && w[1] == a[1]);
}

} // verus!
