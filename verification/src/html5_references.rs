//! The HTML5 named character references that decoding knows (names
//! without `&` and `;`), written out as a list of their own; the lookup
//! table that decoding uses is proved equal to it, and each reference is
//! proved to decode to its replacement text.

use vstd::prelude::*;
use crate::entities::spec_entity;

verus! {

/// Reference `i` of the list: its name and its replacement text.
pub open spec fn html5_reference(i: usize) -> (Seq<char>, Seq<char>) {
    if i < 16 {
        html5_references_0(i)
    } else if i < 32 {
        html5_references_1(i)
    } else if i < 48 {
        html5_references_2(i)
    } else if i < 64 {
        html5_references_3(i)
    } else if i < 80 {
        html5_references_4(i)
    } else if i < 96 {
        html5_references_5(i)
    } else if i < 112 {
        html5_references_6(i)
    } else if i < 128 {
        html5_references_7(i)
    } else if i < 144 {
        html5_references_8(i)
    } else if i < 160 {
        html5_references_9(i)
    } else if i < 176 {
        html5_references_10(i)
    } else if i < 192 {
        html5_references_11(i)
    } else if i < 208 {
        html5_references_12(i)
    } else if i < 224 {
        html5_references_13(i)
    } else if i < 240 {
        html5_references_14(i)
    } else if i < 256 {
        html5_references_15(i)
    } else if i < 272 {
        html5_references_16(i)
    } else if i < 288 {
        html5_references_17(i)
    } else if i < 304 {
        html5_references_18(i)
    } else if i < 320 {
        html5_references_19(i)
    } else if i < 336 {
        html5_references_20(i)
    } else if i < 352 {
        html5_references_21(i)
    } else if i < 368 {
        html5_references_22(i)
    } else if i < 384 {
        html5_references_23(i)
    } else if i < 400 {
        html5_references_24(i)
    } else if i < 416 {
        html5_references_25(i)
    } else if i < 432 {
        html5_references_26(i)
    } else if i < 448 {
        html5_references_27(i)
    } else if i < 464 {
        html5_references_28(i)
    } else if i < 480 {
        html5_references_29(i)
    } else if i < 496 {
        html5_references_30(i)
    } else if i < 512 {
        html5_references_31(i)
    } else if i < 528 {
        html5_references_32(i)
    } else if i < 544 {
        html5_references_33(i)
    } else if i < 560 {
        html5_references_34(i)
    } else if i < 576 {
        html5_references_35(i)
    } else if i < 592 {
        html5_references_36(i)
    } else if i < 608 {
        html5_references_37(i)
    } else if i < 624 {
        html5_references_38(i)
    } else if i < 640 {
        html5_references_39(i)
    } else if i < 656 {
        html5_references_40(i)
    } else if i < 672 {
        html5_references_41(i)
    } else if i < 688 {
        html5_references_42(i)
    } else if i < 704 {
        html5_references_43(i)
    } else if i < 720 {
        html5_references_44(i)
    } else if i < 736 {
        html5_references_45(i)
    } else if i < 752 {
        html5_references_46(i)
    } else if i < 768 {
        html5_references_47(i)
    } else if i < 784 {
        html5_references_48(i)
    } else if i < 800 {
        html5_references_49(i)
    } else if i < 816 {
        html5_references_50(i)
    } else if i < 832 {
        html5_references_51(i)
    } else if i < 848 {
        html5_references_52(i)
    } else if i < 864 {
        html5_references_53(i)
    } else if i < 880 {
        html5_references_54(i)
    } else if i < 896 {
        html5_references_55(i)
    } else if i < 912 {
        html5_references_56(i)
    } else if i < 928 {
        html5_references_57(i)
    } else if i < 944 {
        html5_references_58(i)
    } else {
        (Seq::empty(), Seq::empty())
    }
}

pub open spec fn html5_references_0(i: usize) -> (Seq<char>, Seq<char>) {
    match i {
        0 => (seq!['A', 'M', 'P'], seq!['\u{26}']),
        1 => (seq!['a', 'm', 'p'], seq!['\u{26}']),
        2 => (seq!['L', 'T'], seq!['\u{3C}']),
        3 => (seq!['l', 't'], seq!['\u{3C}']),
        4 => (seq!['G', 'T'], seq!['\u{3E}']),
        5 => (seq!['g', 't'], seq!['\u{3E}']),
        6 => (seq!['Q', 'U', 'O', 'T'], seq!['\u{22}']),
        7 => (seq!['q', 'u', 'o', 't'], seq!['\u{22}']),
        8 => (seq!['a', 'p', 'o', 's'], seq!['\u{27}']),
        9 => (seq!['n', 'b', 's', 'p'], seq!['\u{A0}']),
        10 => (seq!['i', 'e', 'x', 'c', 'l'], seq!['\u{A1}']),
        11 => (seq!['c', 'e', 'n', 't'], seq!['\u{A2}']),
        12 => (seq!['p', 'o', 'u', 'n', 'd'], seq!['\u{A3}']),
        13 => (seq!['c', 'u', 'r', 'r', 'e', 'n'], seq!['\u{A4}']),
        14 => (seq!['y', 'e', 'n'], seq!['\u{A5}']),
        15 => (seq!['b', 'r', 'v', 'b', 'a', 'r'], seq!['\u{A6}']),
        _ => (Seq::empty(), Seq::empty()),
    }
}

pub open spec fn html5_references_1(i: usize) -> (Seq<char>, Seq<char>) {
    match i {
        16 => (seq!['s', 'e', 'c', 't'], seq!['\u{A7}']),
        17 => (seq!['u', 'm', 'l'], seq!['\u{A8}']),
        18 => (seq!['c', 'o', 'p', 'y'], seq!['\u{A9}']),
        19 => (seq!['o', 'r', 'd', 'f'], seq!['\u{AA}']),
        20 => (seq!['l', 'a', 'q', 'u', 'o'], seq!['\u{AB}']),
        21 => (seq!['n', 'o', 't'], seq!['\u{AC}']),
        22 => (seq!['s', 'h', 'y'], seq!['\u{AD}']),
        23 => (seq!['r', 'e', 'g'], seq!['\u{AE}']),
        24 => (seq!['m', 'a', 'c', 'r'], seq!['\u{AF}']),
        25 => (seq!['d', 'e', 'g'], seq!['\u{B0}']),
        26 => (seq!['p', 'l', 'u', 's', 'm', 'n'], seq!['\u{B1}']),
        27 => (seq!['s', 'u', 'p', '2'], seq!['\u{B2}']),
        28 => (seq!['s', 'u', 'p', '3'], seq!['\u{B3}']),
        29 => (seq!['a', 'c', 'u', 't', 'e'], seq!['\u{B4}']),
        30 => (seq!['m', 'i', 'c', 'r', 'o'], seq!['\u{B5}']),
        31 => (seq!['p', 'a', 'r', 'a'], seq!['\u{B6}']),
        _ => (Seq::empty(), Seq::empty()),
    }
}

pub open spec fn html5_references_2(i: usize) -> (Seq<char>, Seq<char>) {
    match i {
        32 => (seq!['m', 'i', 'd', 'd', 'o', 't'], seq!['\u{B7}']),
        33 => (seq!['c', 'e', 'd', 'i', 'l'], seq!['\u{B8}']),
        34 => (seq!['s', 'u', 'p', '1'], seq!['\u{B9}']),
        35 => (seq!['o', 'r', 'd', 'm'], seq!['\u{BA}']),
        36 => (seq!['r', 'a', 'q', 'u', 'o'], seq!['\u{BB}']),
        37 => (seq!['f', 'r', 'a', 'c', '1', '4'], seq!['\u{BC}']),
        38 => (seq!['f', 'r', 'a', 'c', '1', '2'], seq!['\u{BD}']),
        39 => (seq!['f', 'r', 'a', 'c', '3', '4'], seq!['\u{BE}']),
        40 => (seq!['i', 'q', 'u', 'e', 's', 't'], seq!['\u{BF}']),
        41 => (seq!['A', 'g', 'r', 'a', 'v', 'e'], seq!['\u{C0}']),
        42 => (seq!['A', 'a', 'c', 'u', 't', 'e'], seq!['\u{C1}']),
        43 => (seq!['A', 'c', 'i', 'r', 'c'], seq!['\u{C2}']),
        44 => (seq!['A', 't', 'i', 'l', 'd', 'e'], seq!['\u{C3}']),
        45 => (seq!['A', 'u', 'm', 'l'], seq!['\u{C4}']),
        46 => (seq!['A', 'r', 'i', 'n', 'g'], seq!['\u{C5}']),
        47 => (seq!['A', 'E', 'l', 'i', 'g'], seq!['\u{C6}']),
        _ => (Seq::empty(), Seq::empty()),
    }
}

pub open spec fn html5_references_3(i: usize) -> (Seq<char>, Seq<char>) {
    match i {
        48 => (seq!['C', 'c', 'e', 'd', 'i', 'l'], seq!['\u{C7}']),
        49 => (seq!['E', 'g', 'r', 'a', 'v', 'e'], seq!['\u{C8}']),
        50 => (seq!['E', 'a', 'c', 'u', 't', 'e'], seq!['\u{C9}']),
        51 => (seq!['E', 'c', 'i', 'r', 'c'], seq!['\u{CA}']),
        52 => (seq!['E', 'u', 'm', 'l'], seq!['\u{CB}']),
        53 => (seq!['I', 'g', 'r', 'a', 'v', 'e'], seq!['\u{CC}']),
        54 => (seq!['I', 'a', 'c', 'u', 't', 'e'], seq!['\u{CD}']),
        55 => (seq!['I', 'c', 'i', 'r', 'c'], seq!['\u{CE}']),
        56 => (seq!['I', 'u', 'm', 'l'], seq!['\u{CF}']),
        57 => (seq!['E', 'T', 'H'], seq!['\u{D0}']),
        58 => (seq!['N', 't', 'i', 'l', 'd', 'e'], seq!['\u{D1}']),
        59 => (seq!['O', 'g', 'r', 'a', 'v', 'e'], seq!['\u{D2}']),
        60 => (seq!['O', 'a', 'c', 'u', 't', 'e'], seq!['\u{D3}']),
        61 => (seq!['O', 'c', 'i', 'r', 'c'], seq!['\u{D4}']),
        62 => (seq!['O', 't', 'i', 'l', 'd', 'e'], seq!['\u{D5}']),
        63 => (seq!['O', 'u', 'm', 'l'], seq!['\u{D6}']),
        _ => (Seq::empty(), Seq::empty()),
    }
}

pub open spec fn html5_references_4(i: usize) -> (Seq<char>, Seq<char>) {
    match i {
        64 => (seq!['t', 'i', 'm', 'e', 's'], seq!['\u{D7}']),
        65 => (seq!['O', 's', 'l', 'a', 's', 'h'], seq!['\u{D8}']),
        66 => (seq!['U', 'g', 'r', 'a', 'v', 'e'], seq!['\u{D9}']),
        67 => (seq!['U', 'a', 'c', 'u', 't', 'e'], seq!['\u{DA}']),
        68 => (seq!['U', 'c', 'i', 'r', 'c'], seq!['\u{DB}']),
        69 => (seq!['U', 'u', 'm', 'l'], seq!['\u{DC}']),
        70 => (seq!['Y', 'a', 'c', 'u', 't', 'e'], seq!['\u{DD}']),
        71 => (seq!['T', 'H', 'O', 'R', 'N'], seq!['\u{DE}']),
        72 => (seq!['s', 'z', 'l', 'i', 'g'], seq!['\u{DF}']),
        73 => (seq!['a', 'g', 'r', 'a', 'v', 'e'], seq!['\u{E0}']),
        74 => (seq!['a', 'a', 'c', 'u', 't', 'e'], seq!['\u{E1}']),
        75 => (seq!['a', 'c', 'i', 'r', 'c'], seq!['\u{E2}']),
        76 => (seq!['a', 't', 'i', 'l', 'd', 'e'], seq!['\u{E3}']),
        77 => (seq!['a', 'u', 'm', 'l'], seq!['\u{E4}']),
        78 => (seq!['a', 'r', 'i', 'n', 'g'], seq!['\u{E5}']),
        79 => (seq!['a', 'e', 'l', 'i', 'g'], seq!['\u{E6}']),
        _ => (Seq::empty(), Seq::empty()),
    }
}

pub open spec fn html5_references_5(i: usize) -> (Seq<char>, Seq<char>) {
    match i {
        80 => (seq!['c', 'c', 'e', 'd', 'i', 'l'], seq!['\u{E7}']),
        81 => (seq!['e', 'g', 'r', 'a', 'v', 'e'], seq!['\u{E8}']),
        82 => (seq!['e', 'a', 'c', 'u', 't', 'e'], seq!['\u{E9}']),
        83 => (seq!['e', 'c', 'i', 'r', 'c'], seq!['\u{EA}']),
        84 => (seq!['e', 'u', 'm', 'l'], seq!['\u{EB}']),
        85 => (seq!['i', 'g', 'r', 'a', 'v', 'e'], seq!['\u{EC}']),
        86 => (seq!['i', 'a', 'c', 'u', 't', 'e'], seq!['\u{ED}']),
        87 => (seq!['i', 'c', 'i', 'r', 'c'], seq!['\u{EE}']),
        88 => (seq!['i', 'u', 'm', 'l'], seq!['\u{EF}']),
        89 => (seq!['e', 't', 'h'], seq!['\u{F0}']),
        90 => (seq!['n', 't', 'i', 'l', 'd', 'e'], seq!['\u{F1}']),
        91 => (seq!['o', 'g', 'r', 'a', 'v', 'e'], seq!['\u{F2}']),
        92 => (seq!['o', 'a', 'c', 'u', 't', 'e'], seq!['\u{F3}']),
        93 => (seq!['o', 'c', 'i', 'r', 'c'], seq!['\u{F4}']),
        94 => (seq!['o', 't', 'i', 'l', 'd', 'e'], seq!['\u{F5}']),
        95 => (seq!['o', 'u', 'm', 'l'], seq!['\u{F6}']),
        _ => (Seq::empty(), Seq::empty()),
    }
}

pub open spec fn html5_references_6(i: usize) -> (Seq<char>, Seq<char>) {
    match i {
        96 => (seq!['O', 'g', 'r', 'a', 'v', 'e'], seq!['\u{D2}']),
        97 => (seq!['O', 'a', 'c', 'u', 't', 'e'], seq!['\u{D3}']),
        98 => (seq!['O', 'c', 'i', 'r', 'c'], seq!['\u{D4}']),
        99 => (seq!['O', 't', 'i', 'l', 'd', 'e'], seq!['\u{D5}']),
        100 => (seq!['O', 'u', 'm', 'l'], seq!['\u{D6}']),
        101 => (seq!['d', 'i', 'v', 'i', 'd', 'e'], seq!['\u{F7}']),
        102 => (seq!['o', 's', 'l', 'a', 's', 'h'], seq!['\u{F8}']),
        103 => (seq!['u', 'g', 'r', 'a', 'v', 'e'], seq!['\u{F9}']),
        104 => (seq!['u', 'a', 'c', 'u', 't', 'e'], seq!['\u{FA}']),
        105 => (seq!['u', 'c', 'i', 'r', 'c'], seq!['\u{FB}']),
        106 => (seq!['u', 'u', 'm', 'l'], seq!['\u{FC}']),
        107 => (seq!['y', 'a', 'c', 'u', 't', 'e'], seq!['\u{FD}']),
        108 => (seq!['t', 'h', 'o', 'r', 'n'], seq!['\u{FE}']),
        109 => (seq!['y', 'u', 'm', 'l'], seq!['\u{FF}']),
        110 => (seq!['O', 'E', 'l', 'i', 'g'], seq!['\u{152}']),
        111 => (seq!['o', 'e', 'l', 'i', 'g'], seq!['\u{153}']),
        _ => (Seq::empty(), Seq::empty()),
    }
}

pub open spec fn html5_references_7(i: usize) -> (Seq<char>, Seq<char>) {
    match i {
        112 => (seq!['S', 'c', 'a', 'r', 'o', 'n'], seq!['\u{160}']),
        113 => (seq!['s', 'c', 'a', 'r', 'o', 'n'], seq!['\u{161}']),
        114 => (seq!['Y', 'u', 'm', 'l'], seq!['\u{178}']),
        115 => (seq!['f', 'n', 'o', 'f'], seq!['\u{192}']),
        116 => (seq!['c', 'i', 'r', 'c'], seq!['\u{2C6}']),
        117 => (seq!['t', 'i', 'l', 'd', 'e'], seq!['\u{2DC}']),
        118 => (seq!['A', 'l', 'p', 'h', 'a'], seq!['\u{391}']),
        119 => (seq!['B', 'e', 't', 'a'], seq!['\u{392}']),
        120 => (seq!['G', 'a', 'm', 'm', 'a'], seq!['\u{393}']),
        121 => (seq!['D', 'e', 'l', 't', 'a'], seq!['\u{394}']),
        122 => (seq!['E', 'p', 's', 'i', 'l', 'o', 'n'], seq!['\u{395}']),
        123 => (seq!['Z', 'e', 't', 'a'], seq!['\u{396}']),
        124 => (seq!['E', 't', 'a'], seq!['\u{397}']),
        125 => (seq!['T', 'h', 'e', 't', 'a'], seq!['\u{398}']),
        126 => (seq!['I', 'o', 't', 'a'], seq!['\u{399}']),
        127 => (seq!['K', 'a', 'p', 'p', 'a'], seq!['\u{39A}']),
        _ => (Seq::empty(), Seq::empty()),
    }
}

pub open spec fn html5_references_8(i: usize) -> (Seq<char>, Seq<char>) {
    match i {
        128 => (seq!['L', 'a', 'm', 'b', 'd', 'a'], seq!['\u{39B}']),
        129 => (seq!['M', 'u'], seq!['\u{39C}']),
        130 => (seq!['N', 'u'], seq!['\u{39D}']),
        131 => (seq!['X', 'i'], seq!['\u{39E}']),
        132 => (seq!['O', 'm', 'i', 'c', 'r', 'o', 'n'], seq!['\u{39F}']),
        133 => (seq!['P', 'i'], seq!['\u{3A0}']),
        134 => (seq!['R', 'h', 'o'], seq!['\u{3A1}']),
        135 => (seq!['S', 'i', 'g', 'm', 'a'], seq!['\u{3A3}']),
        136 => (seq!['T', 'a', 'u'], seq!['\u{3A4}']),
        137 => (seq!['U', 'p', 's', 'i', 'l', 'o', 'n'], seq!['\u{3A5}']),
        138 => (seq!['P', 'h', 'i'], seq!['\u{3A6}']),
        139 => (seq!['C', 'h', 'i'], seq!['\u{3A7}']),
        140 => (seq!['P', 's', 'i'], seq!['\u{3A8}']),
        141 => (seq!['O', 'm', 'e', 'g', 'a'], seq!['\u{3A9}']),
        142 => (seq!['a', 'l', 'p', 'h', 'a'], seq!['\u{3B1}']),
        143 => (seq!['b', 'e', 't', 'a'], seq!['\u{3B2}']),
        _ => (Seq::empty(), Seq::empty()),
    }
}

pub open spec fn html5_references_9(i: usize) -> (Seq<char>, Seq<char>) {
    match i {
        144 => (seq!['g', 'a', 'm', 'm', 'a'], seq!['\u{3B3}']),
        145 => (seq!['d', 'e', 'l', 't', 'a'], seq!['\u{3B4}']),
        146 => (seq!['e', 'p', 's', 'i', 'l', 'o', 'n'], seq!['\u{3B5}']),
        147 => (seq!['z', 'e', 't', 'a'], seq!['\u{3B6}']),
        148 => (seq!['e', 't', 'a'], seq!['\u{3B7}']),
        149 => (seq!['t', 'h', 'e', 't', 'a'], seq!['\u{3B8}']),
        150 => (seq!['i', 'o', 't', 'a'], seq!['\u{3B9}']),
        151 => (seq!['k', 'a', 'p', 'p', 'a'], seq!['\u{3BA}']),
        152 => (seq!['l', 'a', 'm', 'b', 'd', 'a'], seq!['\u{3BB}']),
        153 => (seq!['m', 'u'], seq!['\u{3BC}']),
        154 => (seq!['n', 'u'], seq!['\u{3BD}']),
        155 => (seq!['x', 'i'], seq!['\u{3BE}']),
        156 => (seq!['o', 'm', 'i', 'c', 'r', 'o', 'n'], seq!['\u{3BF}']),
        157 => (seq!['p', 'i'], seq!['\u{3C0}']),
        158 => (seq!['r', 'h', 'o'], seq!['\u{3C1}']),
        159 => (seq!['s', 'i', 'g', 'm', 'a', 'f'], seq!['\u{3C2}']),
        _ => (Seq::empty(), Seq::empty()),
    }
}

pub open spec fn html5_references_10(i: usize) -> (Seq<char>, Seq<char>) {
    match i {
        160 => (seq!['s', 'i', 'g', 'm', 'a'], seq!['\u{3C3}']),
        161 => (seq!['t', 'a', 'u'], seq!['\u{3C4}']),
        162 => (seq!['u', 'p', 's', 'i', 'l', 'o', 'n'], seq!['\u{3C5}']),
        163 => (seq!['p', 'h', 'i'], seq!['\u{3C6}']),
        164 => (seq!['c', 'h', 'i'], seq!['\u{3C7}']),
        165 => (seq!['p', 's', 'i'], seq!['\u{3C8}']),
        166 => (seq!['o', 'm', 'e', 'g', 'a'], seq!['\u{3C9}']),
        167 => (seq!['t', 'h', 'e', 't', 'a', 's', 'y', 'm'], seq!['\u{3D1}']),
        168 => (seq!['u', 'p', 's', 'i', 'h'], seq!['\u{3D2}']),
        169 => (seq!['p', 'i', 'v'], seq!['\u{3D6}']),
        170 => (seq!['e', 'n', 's', 'p'], seq!['\u{2002}']),
        171 => (seq!['e', 'm', 's', 'p'], seq!['\u{2003}']),
        172 => (seq!['t', 'h', 'i', 'n', 's', 'p'], seq!['\u{2009}']),
        173 => (seq!['z', 'w', 'n', 'j'], seq!['\u{200C}']),
        174 => (seq!['z', 'w', 'j'], seq!['\u{200D}']),
        175 => (seq!['l', 'r', 'm'], seq!['\u{200E}']),
        _ => (Seq::empty(), Seq::empty()),
    }
}

pub open spec fn html5_references_11(i: usize) -> (Seq<char>, Seq<char>) {
    match i {
        176 => (seq!['r', 'l', 'm'], seq!['\u{200F}']),
        177 => (seq!['n', 'd', 'a', 's', 'h'], seq!['\u{2013}']),
        178 => (seq!['m', 'd', 'a', 's', 'h'], seq!['\u{2014}']),
        179 => (seq!['l', 's', 'q', 'u', 'o'], seq!['\u{2018}']),
        180 => (seq!['r', 's', 'q', 'u', 'o'], seq!['\u{2019}']),
        181 => (seq!['s', 'b', 'q', 'u', 'o'], seq!['\u{201A}']),
        182 => (seq!['l', 'd', 'q', 'u', 'o'], seq!['\u{201C}']),
        183 => (seq!['r', 'd', 'q', 'u', 'o'], seq!['\u{201D}']),
        184 => (seq!['b', 'd', 'q', 'u', 'o'], seq!['\u{201E}']),
        185 => (seq!['d', 'a', 'g', 'g', 'e', 'r'], seq!['\u{2020}']),
        186 => (seq!['D', 'a', 'g', 'g', 'e', 'r'], seq!['\u{2021}']),
        187 => (seq!['p', 'e', 'r', 'm', 'i', 'l'], seq!['\u{2030}']),
        188 => (seq!['l', 's', 'a', 'q', 'u', 'o'], seq!['\u{2039}']),
        189 => (seq!['r', 's', 'a', 'q', 'u', 'o'], seq!['\u{203A}']),
        190 => (seq!['e', 'u', 'r', 'o'], seq!['\u{20AC}']),
        191 => (seq!['t', 'r', 'a', 'd', 'e'], seq!['\u{2122}']),
        _ => (Seq::empty(), Seq::empty()),
    }
}

pub open spec fn html5_references_12(i: usize) -> (Seq<char>, Seq<char>) {
    match i {
        192 => (seq!['b', 'u', 'l', 'l'], seq!['\u{2022}']),
        193 => (seq!['h', 'e', 'l', 'l', 'i', 'p'], seq!['\u{2026}']),
        194 => (seq!['p', 'r', 'i', 'm', 'e'], seq!['\u{2032}']),
        195 => (seq!['P', 'r', 'i', 'm', 'e'], seq!['\u{2033}']),
        196 => (seq!['o', 'l', 'i', 'n', 'e'], seq!['\u{203E}']),
        197 => (seq!['f', 'r', 'a', 's', 'l'], seq!['\u{2044}']),
        198 => (seq!['w', 'e', 'i', 'e', 'r', 'p'], seq!['\u{2118}']),
        199 => (seq!['i', 'm', 'a', 'g', 'e'], seq!['\u{2111}']),
        200 => (seq!['r', 'e', 'a', 'l'], seq!['\u{211C}']),
        201 => (seq!['a', 'l', 'e', 'f', 's', 'y', 'm'], seq!['\u{2135}']),
        202 => (seq!['l', 'a', 'r', 'r'], seq!['\u{2190}']),
        203 => (seq!['u', 'a', 'r', 'r'], seq!['\u{2191}']),
        204 => (seq!['r', 'a', 'r', 'r'], seq!['\u{2192}']),
        205 => (seq!['d', 'a', 'r', 'r'], seq!['\u{2193}']),
        206 => (seq!['h', 'a', 'r', 'r'], seq!['\u{2194}']),
        207 => (seq!['c', 'r', 'a', 'r', 'r'], seq!['\u{21B5}']),
        _ => (Seq::empty(), Seq::empty()),
    }
}

pub open spec fn html5_references_13(i: usize) -> (Seq<char>, Seq<char>) {
    match i {
        208 => (seq!['l', 'A', 'r', 'r'], seq!['\u{21D0}']),
        209 => (seq!['u', 'A', 'r', 'r'], seq!['\u{21D1}']),
        210 => (seq!['r', 'A', 'r', 'r'], seq!['\u{21D2}']),
        211 => (seq!['d', 'A', 'r', 'r'], seq!['\u{21D3}']),
        212 => (seq!['h', 'A', 'r', 'r'], seq!['\u{21D4}']),
        213 => (seq!['f', 'o', 'r', 'a', 'l', 'l'], seq!['\u{2200}']),
        214 => (seq!['p', 'a', 'r', 't'], seq!['\u{2202}']),
        215 => (seq!['e', 'x', 'i', 's', 't'], seq!['\u{2203}']),
        216 => (seq!['e', 'm', 'p', 't', 'y'], seq!['\u{2205}']),
        217 => (seq!['n', 'a', 'b', 'l', 'a'], seq!['\u{2207}']),
        218 => (seq!['i', 's', 'i', 'n'], seq!['\u{2208}']),
        219 => (seq!['n', 'o', 't', 'i', 'n'], seq!['\u{2209}']),
        220 => (seq!['n', 'i'], seq!['\u{220B}']),
        221 => (seq!['p', 'r', 'o', 'd'], seq!['\u{220F}']),
        222 => (seq!['s', 'u', 'm'], seq!['\u{2211}']),
        223 => (seq!['m', 'i', 'n', 'u', 's'], seq!['\u{2212}']),
        _ => (Seq::empty(), Seq::empty()),
    }
}

pub open spec fn html5_references_14(i: usize) -> (Seq<char>, Seq<char>) {
    match i {
        224 => (seq!['l', 'o', 'w', 'a', 's', 't'], seq!['\u{2217}']),
        225 => (seq!['r', 'a', 'd', 'i', 'c'], seq!['\u{221A}']),
        226 => (seq!['p', 'r', 'o', 'p'], seq!['\u{221D}']),
        227 => (seq!['i', 'n', 'f', 'i', 'n'], seq!['\u{221E}']),
        228 => (seq!['a', 'n', 'g'], seq!['\u{2220}']),
        229 => (seq!['a', 'n', 'd'], seq!['\u{2227}']),
        230 => (seq!['o', 'r'], seq!['\u{2228}']),
        231 => (seq!['c', 'a', 'p'], seq!['\u{2229}']),
        232 => (seq!['c', 'u', 'p'], seq!['\u{222A}']),
        233 => (seq!['i', 'n', 't'], seq!['\u{222B}']),
        234 => (seq!['t', 'h', 'e', 'r', 'e', '4'], seq!['\u{2234}']),
        235 => (seq!['s', 'i', 'm'], seq!['\u{223C}']),
        236 => (seq!['c', 'o', 'n', 'g'], seq!['\u{2245}']),
        237 => (seq!['a', 's', 'y', 'm', 'p'], seq!['\u{2248}']),
        238 => (seq!['n', 'e'], seq!['\u{2260}']),
        239 => (seq!['e', 'q', 'u', 'i', 'v'], seq!['\u{2261}']),
        _ => (Seq::empty(), Seq::empty()),
    }
}

pub open spec fn html5_references_15(i: usize) -> (Seq<char>, Seq<char>) {
    match i {
        240 => (seq!['l', 'e'], seq!['\u{2264}']),
        241 => (seq!['g', 'e'], seq!['\u{2265}']),
        242 => (seq!['s', 'u', 'b'], seq!['\u{2282}']),
        243 => (seq!['s', 'u', 'p'], seq!['\u{2283}']),
        244 => (seq!['n', 's', 'u', 'b'], seq!['\u{2284}']),
        245 => (seq!['s', 'u', 'b', 'e'], seq!['\u{2286}']),
        246 => (seq!['s', 'u', 'p', 'e'], seq!['\u{2287}']),
        247 => (seq!['o', 'p', 'l', 'u', 's'], seq!['\u{2295}']),
        248 => (seq!['o', 't', 'i', 'm', 'e', 's'], seq!['\u{2297}']),
        249 => (seq!['p', 'e', 'r', 'p'], seq!['\u{22A5}']),
        250 => (seq!['s', 'd', 'o', 't'], seq!['\u{22C5}']),
        251 => (seq!['l', 'c', 'e', 'i', 'l'], seq!['\u{2308}']),
        252 => (seq!['r', 'c', 'e', 'i', 'l'], seq!['\u{2309}']),
        253 => (seq!['l', 'f', 'l', 'o', 'o', 'r'], seq!['\u{230A}']),
        254 => (seq!['r', 'f', 'l', 'o', 'o', 'r'], seq!['\u{230B}']),
        255 => (seq!['l', 'a', 'n', 'g'], seq!['\u{27E8}']),
        _ => (Seq::empty(), Seq::empty()),
    }
}

pub open spec fn html5_references_16(i: usize) -> (Seq<char>, Seq<char>) {
    match i {
        256 => (seq!['r', 'a', 'n', 'g'], seq!['\u{27E9}']),
        257 => (seq!['l', 'o', 'z'], seq!['\u{25CA}']),
        258 => (seq!['s', 'p', 'a', 'd', 'e', 's'], seq!['\u{2660}']),
        259 => (seq!['c', 'l', 'u', 'b', 's'], seq!['\u{2663}']),
        260 => (seq!['h', 'e', 'a', 'r', 't', 's'], seq!['\u{2665}']),
        261 => (seq!['d', 'i', 'a', 'm', 's'], seq!['\u{2666}']),
        262 => (seq!['t', 'h', 'e', 't', 'a', 's', 'y', 'm', '2'], seq!['\u{3D1}']),
        263 => (seq!['D', 'c', 'a', 'r', 'o', 'n'], seq!['\u{10E}']),
        264 => (seq!['d', 'c', 'a', 'r', 'o', 'n'], seq!['\u{10F}']),
        265 => (seq!['H', 'i', 'l', 'b', 'e', 'r', 't', 'S', 'p', 'a', 'c', 'e'], seq!['\u{210B}']),
        266 => (seq!['D', 'i', 'f', 'f', 'e', 'r', 'e', 'n', 't', 'i', 'a', 'l', 'D'], seq!['\u{2146}']),
        267 => (seq!['C', 'l', 'o', 'c', 'k', 'w', 'i', 's', 'e', 'C', 'o', 'n', 't', 'o', 'u', 'r', 'I', 'n', 't', 'e', 'g', 'r', 'a', 'l'], seq!['\u{2232}']),
        268 => (seq!['C', 'o', 'u', 'n', 't', 'e', 'r', 'C', 'l', 'o', 'c', 'k', 'w', 'i', 's', 'e', 'C', 'o', 'n', 't', 'o', 'u', 'r', 'I', 'n', 't', 'e', 'g', 'r', 'a', 'l'], seq!['\u{2233}']),
        269 => (seq!['u', 'b', 'r', 'e', 'v', 'e'], seq!['\u{16D}']),
        270 => (seq!['U', 'b', 'r', 'e', 'v', 'e'], seq!['\u{16C}']),
        271 => (seq!['o', 'g', 'o', 'n'], seq!['\u{2DB}']),
        _ => (Seq::empty(), Seq::empty()),
    }
}

pub open spec fn html5_references_17(i: usize) -> (Seq<char>, Seq<char>) {
    match i {
        272 => (seq!['d', 'b', 'l', 'a', 'c'], seq!['\u{2DD}']),
        273 => (seq!['D', 'o', 'w', 'n', 'B', 'r', 'e', 'v', 'e'], seq!['\u{311}']),
        274 => (seq!['U', 'n', 'd', 'e', 'r', 'B', 'a', 'r'], seq!['\u{331}']),
        275 => (seq!['i', 'n', 'c', 'a', 'r', 'e'], seq!['\u{2105}']),
        276 => (seq!['g', 's', 'c', 'r'], seq!['\u{210A}']),
        277 => (seq!['H', 'i', 'l', 'b', 'e', 'r', 't', 'S', 'p', 'a', 'c', 'e', '2'], seq!['\u{210B}']),
        278 => (seq!['Z', 'e', 't', 'a', '2'], seq!['\u{396}']),
        279 => (seq!['p', 'h', 'o', 'n', 'e'], seq!['\u{2706}']),
        280 => (seq!['c', 'o', 'l', 'o', 'n'], seq!['\u{3A}']),
        281 => (seq!['c', 'o', 'm', 'm', 'a'], seq!['\u{2C}']),
        282 => (seq!['p', 'e', 'r', 'i', 'o', 'd'], seq!['\u{2E}']),
        283 => (seq!['s', 'o', 'l'], seq!['\u{2F}']),
        284 => (seq!['b', 's', 'o', 'l'], seq!['\u{5C}']),
        285 => (seq!['n', 'd', 'a', 's', 'h', '2'], seq!['\u{2013}']),
        286 => (seq!['h', 'o', 'r', 'b', 'a', 'r'], seq!['\u{2015}']),
        287 => (seq!['V', 'e', 'r', 't'], seq!['\u{2016}']),
        _ => (Seq::empty(), Seq::empty()),
    }
}

pub open spec fn html5_references_18(i: usize) -> (Seq<char>, Seq<char>) {
    match i {
        288 => (seq!['f', 'r', 'a', 'c', '1', '3'], seq!['\u{2153}']),
        289 => (seq!['f', 'r', 'a', 'c', '2', '3'], seq!['\u{2154}']),
        290 => (seq!['f', 'r', 'a', 'c', '1', '5'], seq!['\u{2155}']),
        291 => (seq!['f', 'r', 'a', 'c', '2', '5'], seq!['\u{2156}']),
        292 => (seq!['f', 'r', 'a', 'c', '3', '5'], seq!['\u{2157}']),
        293 => (seq!['f', 'r', 'a', 'c', '4', '5'], seq!['\u{2158}']),
        294 => (seq!['f', 'r', 'a', 'c', '1', '6'], seq!['\u{2159}']),
        295 => (seq!['f', 'r', 'a', 'c', '5', '6'], seq!['\u{215A}']),
        296 => (seq!['f', 'r', 'a', 'c', '1', '8'], seq!['\u{215B}']),
        297 => (seq!['f', 'r', 'a', 'c', '3', '8'], seq!['\u{215C}']),
        298 => (seq!['f', 'r', 'a', 'c', '5', '8'], seq!['\u{215D}']),
        299 => (seq!['f', 'r', 'a', 'c', '7', '8'], seq!['\u{215E}']),
        300 => (seq!['s', 'u', 'p', '4'], seq!['\u{2074}']),
        301 => (seq!['s', 'u', 'p', '5'], seq!['\u{2075}']),
        302 => (seq!['s', 'u', 'p', '6'], seq!['\u{2076}']),
        303 => (seq!['s', 'u', 'p', '7'], seq!['\u{2077}']),
        _ => (Seq::empty(), Seq::empty()),
    }
}

pub open spec fn html5_references_19(i: usize) -> (Seq<char>, Seq<char>) {
    match i {
        304 => (seq!['s', 'u', 'p', '8'], seq!['\u{2078}']),
        305 => (seq!['s', 'u', 'p', '9'], seq!['\u{2079}']),
        306 => (seq!['s', 'u', 'p', '0'], seq!['\u{2070}']),
        307 => (seq!['i', 'e', 'x', 'c', 'l', '2'], seq!['\u{A1}']),
        308 => (seq!['Q', 'U', 'O', 'T'], seq!['\u{22}']),
        309 => (seq!['s', 'o', 'l', '2'], seq!['\u{2F}']),
        310 => (seq!['H', 'a', 't'], seq!['\u{5E}']),
        311 => (seq!['p', 'e', 'r', 'c', 'n', 't'], seq!['\u{25}']),
        312 => (seq!['n', 'u', 'm'], seq!['\u{23}']),
        313 => (seq!['d', 'o', 'l', 'l', 'a', 'r'], seq!['\u{24}']),
        314 => (seq!['l', 'p', 'a', 'r'], seq!['\u{28}']),
        315 => (seq!['r', 'p', 'a', 'r'], seq!['\u{29}']),
        316 => (seq!['p', 'l', 'u', 's'], seq!['\u{2B}']),
        317 => (seq!['s', 'e', 'm', 'i'], seq!['\u{3B}']),
        318 => (seq!['e', 'q', 'u', 'a', 'l', 's'], seq!['\u{3D}']),
        319 => (seq!['q', 'u', 'e', 's', 't'], seq!['\u{3F}']),
        _ => (Seq::empty(), Seq::empty()),
    }
}

pub open spec fn html5_references_20(i: usize) -> (Seq<char>, Seq<char>) {
    match i {
        320 => (seq!['c', 'o', 'm', 'm', 'a', 't'], seq!['\u{40}']),
        321 => (seq!['l', 's', 'q', 'b'], seq!['\u{5B}']),
        322 => (seq!['r', 's', 'q', 'b'], seq!['\u{5D}']),
        323 => (seq!['l', 'c', 'u', 'b'], seq!['\u{7B}']),
        324 => (seq!['r', 'c', 'u', 'b'], seq!['\u{7D}']),
        325 => (seq!['v', 'e', 'r', 'b', 'a', 'r'], seq!['\u{7C}']),
        326 => (seq!['g', 'r', 'a', 'v', 'e'], seq!['\u{60}']),
        327 => (seq!['N', 'e', 'w', 'L', 'i', 'n', 'e'], seq!['\u{A}']),
        328 => (seq!['T', 'a', 'b'], seq!['\u{9}']),
        329 => (seq!['N', 'o', 'n', 'B', 'r', 'e', 'a', 'k', 'i', 'n', 'g', 'S', 'p', 'a', 'c', 'e'], seq!['\u{A0}']),
        330 => (seq!['U', 'n', 'd', 'e', 'r', 'B', 'r', 'a', 'c', 'k', 'e', 't'], seq!['\u{23B5}']),
        331 => (seq!['b', 'b', 'r', 'k'], seq!['\u{23B5}']),
        332 => (seq!['O', 'v', 'e', 'r', 'B', 'r', 'a', 'c', 'k', 'e', 't'], seq!['\u{23B4}']),
        333 => (seq!['D', 'o', 'u', 'b', 'l', 'e', 'L', 'e', 'f', 't', 'T', 'e', 'e'], seq!['\u{2AE4}']),
        334 => (seq!['D', 'o', 'w', 'n', 'A', 'r', 'r', 'o', 'w'], seq!['\u{2193}']),
        335 => (seq!['U', 'p', 'A', 'r', 'r', 'o', 'w'], seq!['\u{2191}']),
        _ => (Seq::empty(), Seq::empty()),
    }
}

pub open spec fn html5_references_21(i: usize) -> (Seq<char>, Seq<char>) {
    match i {
        336 => (seq!['L', 'e', 'f', 't', 'A', 'r', 'r', 'o', 'w'], seq!['\u{2190}']),
        337 => (seq!['R', 'i', 'g', 'h', 't', 'A', 'r', 'r', 'o', 'w'], seq!['\u{2192}']),
        338 => (seq!['U', 'p', 'D', 'o', 'w', 'n', 'A', 'r', 'r', 'o', 'w'], seq!['\u{2195}']),
        339 => (seq!['D', 'o', 'u', 'b', 'l', 'e', 'D', 'o', 'w', 'n', 'A', 'r', 'r', 'o', 'w'], seq!['\u{21D3}']),
        340 => (seq!['D', 'o', 'u', 'b', 'l', 'e', 'U', 'p', 'A', 'r', 'r', 'o', 'w'], seq!['\u{21D1}']),
        341 => (seq!['D', 'o', 'u', 'b', 'l', 'e', 'L', 'e', 'f', 't', 'A', 'r', 'r', 'o', 'w'], seq!['\u{21D0}']),
        342 => (seq!['D', 'o', 'u', 'b', 'l', 'e', 'R', 'i', 'g', 'h', 't', 'A', 'r', 'r', 'o', 'w'], seq!['\u{21D2}']),
        343 => (seq!['D', 'o', 'u', 'b', 'l', 'e', 'L', 'e', 'f', 't', 'R', 'i', 'g', 'h', 't', 'A', 'r', 'r', 'o', 'w'], seq!['\u{21D4}']),
        344 => (seq!['L', 'e', 'f', 't', 'T', 'e', 'e', 'A', 'r', 'r', 'o', 'w'], seq!['\u{21A4}']),
        345 => (seq!['U', 'p', 'T', 'e', 'e', 'A', 'r', 'r', 'o', 'w'], seq!['\u{21A5}']),
        346 => (seq!['R', 'i', 'g', 'h', 't', 'T', 'e', 'e', 'A', 'r', 'r', 'o', 'w'], seq!['\u{21A6}']),
        347 => (seq!['D', 'o', 'w', 'n', 'T', 'e', 'e', 'A', 'r', 'r', 'o', 'w'], seq!['\u{21A7}']),
        348 => (seq!['L', 'o', 'n', 'g', 'L', 'e', 'f', 't', 'A', 'r', 'r', 'o', 'w'], seq!['\u{27F5}']),
        349 => (seq!['L', 'o', 'n', 'g', 'R', 'i', 'g', 'h', 't', 'A', 'r', 'r', 'o', 'w'], seq!['\u{27F6}']),
        350 => (seq!['L', 'o', 'n', 'g', 'L', 'e', 'f', 't', 'R', 'i', 'g', 'h', 't', 'A', 'r', 'r', 'o', 'w'], seq!['\u{27F7}']),
        351 => (seq!['D', 'o', 'u', 'b', 'l', 'e', 'L', 'o', 'n', 'g', 'L', 'e', 'f', 't', 'A', 'r', 'r', 'o', 'w'], seq!['\u{27F8}']),
        _ => (Seq::empty(), Seq::empty()),
    }
}

pub open spec fn html5_references_22(i: usize) -> (Seq<char>, Seq<char>) {
    match i {
        352 => (seq!['D', 'o', 'u', 'b', 'l', 'e', 'L', 'o', 'n', 'g', 'R', 'i', 'g', 'h', 't', 'A', 'r', 'r', 'o', 'w'], seq!['\u{27F9}']),
        353 => (seq!['D', 'o', 'u', 'b', 'l', 'e', 'L', 'o', 'n', 'g', 'L', 'e', 'f', 't', 'R', 'i', 'g', 'h', 't', 'A', 'r', 'r', 'o', 'w'], seq!['\u{27FA}']),
        354 => (seq!['M', 'a', 'p'], seq!['\u{2905}']),
        355 => (seq!['D', 'o', 'w', 'n', 'T', 'e', 'e'], seq!['\u{22A4}']),
        356 => (seq!['U', 'p', 'T', 'e', 'e'], seq!['\u{22A5}']),
        357 => (seq!['C', 'u', 'p'], seq!['\u{22D3}']),
        358 => (seq!['C', 'a', 'p'], seq!['\u{22D2}']),
        359 => (seq!['S', 'q', 'u', 'a', 'r', 'e'], seq!['\u{25A1}']),
        360 => (seq!['B', 'l', 'a', 'c', 'k', 'S', 'q', 'u', 'a', 'r', 'e'], seq!['\u{25A0}']),
        361 => (seq!['W', 'h', 'i', 't', 'e', 'C', 'i', 'r', 'c', 'l', 'e'], seq!['\u{25CB}']),
        362 => (seq!['B', 'l', 'a', 'c', 'k', 'C', 'i', 'r', 'c', 'l', 'e'], seq!['\u{25CF}']),
        363 => (seq!['s', 't', 'a', 'r'], seq!['\u{22C6}']),
        364 => (seq!['c', 'h', 'e', 'c', 'k'], seq!['\u{2713}']),
        365 => (seq!['c', 'r', 'o', 's', 's'], seq!['\u{2717}']),
        366 => (seq!['m', 'a', 'l', 't'], seq!['\u{2720}']),
        367 => (seq!['s', 'e', 'x', 't'], seq!['\u{2736}']),
        _ => (Seq::empty(), Seq::empty()),
    }
}

pub open spec fn html5_references_23(i: usize) -> (Seq<char>, Seq<char>) {
    match i {
        368 => (seq!['p', 'h', 'o', 'n', 'e', '2'], seq!['\u{260E}']),
        369 => (seq!['f', 'e', 'm', 'a', 'l', 'e'], seq!['\u{2640}']),
        370 => (seq!['m', 'a', 'l', 'e'], seq!['\u{2642}']),
        371 => (seq!['m', 'u', 's', 'i', 'c', 'a', 'l', 'n', 'o', 't', 'e'], seq!['\u{266A}']),
        372 => (seq!['m', 'u', 's', 'i', 'c', 'a', 'l', 'n', 'o', 't', 'e', 's'], seq!['\u{266B}']),
        373 => (seq!['s', 'u', 'n'], seq!['\u{2600}']),
        374 => (seq!['c', 'l', 'o', 'u', 'd'], seq!['\u{2601}']),
        375 => (seq!['u', 'm', 'b', 'r', 'e', 'l', 'l', 'a'], seq!['\u{2602}']),
        376 => (seq!['s', 'n', 'o', 'w', 'm', 'a', 'n'], seq!['\u{2603}']),
        377 => (seq!['c', 'o', 'm', 'e', 't'], seq!['\u{2604}']),
        378 => (seq!['c', 'h', 'e', 'c', 'k', 'm', 'a', 'r', 'k'], seq!['\u{2713}']),
        379 => (seq!['b', 'a', 'l', 'l', 'o', 't'], seq!['\u{2717}']),
        380 => (seq!['h', 'e', 'a', 'v', 'y', 'c', 'h', 'e', 'c', 'k'], seq!['\u{2714}']),
        381 => (seq!['h', 'e', 'a', 'v', 'y', 'c', 'r', 'o', 's', 's'], seq!['\u{2718}']),
        382 => (seq!['A', 'o', 'p', 'f'], seq!['\u{1D538}']),
        383 => (seq!['B', 'o', 'p', 'f'], seq!['\u{1D539}']),
        _ => (Seq::empty(), Seq::empty()),
    }
}

pub open spec fn html5_references_24(i: usize) -> (Seq<char>, Seq<char>) {
    match i {
        384 => (seq!['C', 'o', 'p', 'f'], seq!['\u{2102}']),
        385 => (seq!['D', 'o', 'p', 'f'], seq!['\u{1D53B}']),
        386 => (seq!['E', 'o', 'p', 'f'], seq!['\u{1D53C}']),
        387 => (seq!['F', 'o', 'p', 'f'], seq!['\u{1D53D}']),
        388 => (seq!['G', 'o', 'p', 'f'], seq!['\u{1D53E}']),
        389 => (seq!['H', 'o', 'p', 'f'], seq!['\u{210D}']),
        390 => (seq!['I', 'o', 'p', 'f'], seq!['\u{1D540}']),
        391 => (seq!['J', 'o', 'p', 'f'], seq!['\u{1D541}']),
        392 => (seq!['K', 'o', 'p', 'f'], seq!['\u{1D542}']),
        393 => (seq!['L', 'o', 'p', 'f'], seq!['\u{1D543}']),
        394 => (seq!['M', 'o', 'p', 'f'], seq!['\u{1D544}']),
        395 => (seq!['N', 'o', 'p', 'f'], seq!['\u{2115}']),
        396 => (seq!['O', 'o', 'p', 'f'], seq!['\u{1D546}']),
        397 => (seq!['P', 'o', 'p', 'f'], seq!['\u{2119}']),
        398 => (seq!['Q', 'o', 'p', 'f'], seq!['\u{211A}']),
        399 => (seq!['R', 'o', 'p', 'f'], seq!['\u{211D}']),
        _ => (Seq::empty(), Seq::empty()),
    }
}

pub open spec fn html5_references_25(i: usize) -> (Seq<char>, Seq<char>) {
    match i {
        400 => (seq!['S', 'o', 'p', 'f'], seq!['\u{1D54A}']),
        401 => (seq!['T', 'o', 'p', 'f'], seq!['\u{1D54B}']),
        402 => (seq!['U', 'o', 'p', 'f'], seq!['\u{1D54C}']),
        403 => (seq!['V', 'o', 'p', 'f'], seq!['\u{1D54D}']),
        404 => (seq!['W', 'o', 'p', 'f'], seq!['\u{1D54E}']),
        405 => (seq!['X', 'o', 'p', 'f'], seq!['\u{1D54F}']),
        406 => (seq!['Y', 'o', 'p', 'f'], seq!['\u{1D550}']),
        407 => (seq!['Z', 'o', 'p', 'f'], seq!['\u{2124}']),
        408 => (seq!['a', 'o', 'p', 'f'], seq!['\u{1D552}']),
        409 => (seq!['b', 'o', 'p', 'f'], seq!['\u{1D553}']),
        410 => (seq!['c', 'o', 'p', 'f'], seq!['\u{1D554}']),
        411 => (seq!['d', 'o', 'p', 'f'], seq!['\u{1D555}']),
        412 => (seq!['e', 'o', 'p', 'f'], seq!['\u{1D556}']),
        413 => (seq!['f', 'o', 'p', 'f'], seq!['\u{1D557}']),
        414 => (seq!['g', 'o', 'p', 'f'], seq!['\u{1D558}']),
        415 => (seq!['h', 'o', 'p', 'f'], seq!['\u{1D559}']),
        _ => (Seq::empty(), Seq::empty()),
    }
}

pub open spec fn html5_references_26(i: usize) -> (Seq<char>, Seq<char>) {
    match i {
        416 => (seq!['i', 'o', 'p', 'f'], seq!['\u{1D55A}']),
        417 => (seq!['j', 'o', 'p', 'f'], seq!['\u{1D55B}']),
        418 => (seq!['k', 'o', 'p', 'f'], seq!['\u{1D55C}']),
        419 => (seq!['l', 'o', 'p', 'f'], seq!['\u{1D55D}']),
        420 => (seq!['m', 'o', 'p', 'f'], seq!['\u{1D55E}']),
        421 => (seq!['n', 'o', 'p', 'f'], seq!['\u{1D55F}']),
        422 => (seq!['o', 'o', 'p', 'f'], seq!['\u{1D560}']),
        423 => (seq!['p', 'o', 'p', 'f'], seq!['\u{1D561}']),
        424 => (seq!['q', 'o', 'p', 'f'], seq!['\u{1D562}']),
        425 => (seq!['r', 'o', 'p', 'f'], seq!['\u{1D563}']),
        426 => (seq!['s', 'o', 'p', 'f'], seq!['\u{1D564}']),
        427 => (seq!['t', 'o', 'p', 'f'], seq!['\u{1D565}']),
        428 => (seq!['u', 'o', 'p', 'f'], seq!['\u{1D566}']),
        429 => (seq!['v', 'o', 'p', 'f'], seq!['\u{1D567}']),
        430 => (seq!['w', 'o', 'p', 'f'], seq!['\u{1D568}']),
        431 => (seq!['x', 'o', 'p', 'f'], seq!['\u{1D569}']),
        _ => (Seq::empty(), Seq::empty()),
    }
}

pub open spec fn html5_references_27(i: usize) -> (Seq<char>, Seq<char>) {
    match i {
        432 => (seq!['y', 'o', 'p', 'f'], seq!['\u{1D56A}']),
        433 => (seq!['z', 'o', 'p', 'f'], seq!['\u{1D56B}']),
        434 => (seq!['A', 'f', 'r'], seq!['\u{1D504}']),
        435 => (seq!['B', 'f', 'r'], seq!['\u{1D505}']),
        436 => (seq!['C', 'f', 'r'], seq!['\u{212D}']),
        437 => (seq!['D', 'f', 'r'], seq!['\u{1D507}']),
        438 => (seq!['E', 'f', 'r'], seq!['\u{1D508}']),
        439 => (seq!['F', 'f', 'r'], seq!['\u{1D509}']),
        440 => (seq!['G', 'f', 'r'], seq!['\u{1D50A}']),
        441 => (seq!['H', 'f', 'r'], seq!['\u{210C}']),
        442 => (seq!['I', 'f', 'r'], seq!['\u{2111}']),
        443 => (seq!['J', 'f', 'r'], seq!['\u{1D50D}']),
        444 => (seq!['K', 'f', 'r'], seq!['\u{1D50E}']),
        445 => (seq!['L', 'f', 'r'], seq!['\u{1D50F}']),
        446 => (seq!['M', 'f', 'r'], seq!['\u{1D510}']),
        447 => (seq!['N', 'f', 'r'], seq!['\u{1D511}']),
        _ => (Seq::empty(), Seq::empty()),
    }
}

pub open spec fn html5_references_28(i: usize) -> (Seq<char>, Seq<char>) {
    match i {
        448 => (seq!['O', 'f', 'r'], seq!['\u{1D512}']),
        449 => (seq!['P', 'f', 'r'], seq!['\u{1D513}']),
        450 => (seq!['Q', 'f', 'r'], seq!['\u{1D514}']),
        451 => (seq!['R', 'f', 'r'], seq!['\u{211C}']),
        452 => (seq!['S', 'f', 'r'], seq!['\u{1D516}']),
        453 => (seq!['T', 'f', 'r'], seq!['\u{1D517}']),
        454 => (seq!['U', 'f', 'r'], seq!['\u{1D518}']),
        455 => (seq!['V', 'f', 'r'], seq!['\u{1D519}']),
        456 => (seq!['W', 'f', 'r'], seq!['\u{1D51A}']),
        457 => (seq!['X', 'f', 'r'], seq!['\u{1D51B}']),
        458 => (seq!['Y', 'f', 'r'], seq!['\u{1D51C}']),
        459 => (seq!['Z', 'f', 'r'], seq!['\u{2128}']),
        460 => (seq!['A', 's', 'c', 'r'], seq!['\u{1D49C}']),
        461 => (seq!['C', 's', 'c', 'r'], seq!['\u{1D49E}']),
        462 => (seq!['D', 's', 'c', 'r'], seq!['\u{1D49F}']),
        463 => (seq!['G', 's', 'c', 'r'], seq!['\u{1D4A2}']),
        _ => (Seq::empty(), Seq::empty()),
    }
}

pub open spec fn html5_references_29(i: usize) -> (Seq<char>, Seq<char>) {
    match i {
        464 => (seq!['J', 's', 'c', 'r'], seq!['\u{1D4A5}']),
        465 => (seq!['K', 's', 'c', 'r'], seq!['\u{1D4A6}']),
        466 => (seq!['N', 's', 'c', 'r'], seq!['\u{1D4A9}']),
        467 => (seq!['O', 's', 'c', 'r'], seq!['\u{1D4AA}']),
        468 => (seq!['P', 's', 'c', 'r'], seq!['\u{1D4AB}']),
        469 => (seq!['Q', 's', 'c', 'r'], seq!['\u{1D4AC}']),
        470 => (seq!['S', 's', 'c', 'r'], seq!['\u{1D4AE}']),
        471 => (seq!['T', 's', 'c', 'r'], seq!['\u{1D4AF}']),
        472 => (seq!['U', 's', 'c', 'r'], seq!['\u{1D4B0}']),
        473 => (seq!['V', 's', 'c', 'r'], seq!['\u{1D4B1}']),
        474 => (seq!['W', 's', 'c', 'r'], seq!['\u{1D4B2}']),
        475 => (seq!['X', 's', 'c', 'r'], seq!['\u{1D4B3}']),
        476 => (seq!['Y', 's', 'c', 'r'], seq!['\u{1D4B4}']),
        477 => (seq!['Z', 's', 'c', 'r'], seq!['\u{1D4B5}']),
        478 => (seq!['a', 's', 'c', 'r'], seq!['\u{1D4B6}']),
        479 => (seq!['b', 's', 'c', 'r'], seq!['\u{1D4B7}']),
        _ => (Seq::empty(), Seq::empty()),
    }
}

pub open spec fn html5_references_30(i: usize) -> (Seq<char>, Seq<char>) {
    match i {
        480 => (seq!['c', 's', 'c', 'r'], seq!['\u{1D4B8}']),
        481 => (seq!['d', 's', 'c', 'r'], seq!['\u{1D4B9}']),
        482 => (seq!['f', 's', 'c', 'r'], seq!['\u{1D4BB}']),
        483 => (seq!['h', 's', 'c', 'r'], seq!['\u{1D4BD}']),
        484 => (seq!['i', 's', 'c', 'r'], seq!['\u{1D4BE}']),
        485 => (seq!['j', 's', 'c', 'r'], seq!['\u{1D4BF}']),
        486 => (seq!['k', 's', 'c', 'r'], seq!['\u{1D4C0}']),
        487 => (seq!['l', 's', 'c', 'r'], seq!['\u{1D4C1}']),
        488 => (seq!['m', 's', 'c', 'r'], seq!['\u{1D4C2}']),
        489 => (seq!['n', 's', 'c', 'r'], seq!['\u{1D4C3}']),
        490 => (seq!['p', 's', 'c', 'r'], seq!['\u{1D4C5}']),
        491 => (seq!['q', 's', 'c', 'r'], seq!['\u{1D4C6}']),
        492 => (seq!['r', 's', 'c', 'r'], seq!['\u{1D4C7}']),
        493 => (seq!['s', 's', 'c', 'r'], seq!['\u{1D4C8}']),
        494 => (seq!['t', 's', 'c', 'r'], seq!['\u{1D4C9}']),
        495 => (seq!['u', 's', 'c', 'r'], seq!['\u{1D4CA}']),
        _ => (Seq::empty(), Seq::empty()),
    }
}

pub open spec fn html5_references_31(i: usize) -> (Seq<char>, Seq<char>) {
    match i {
        496 => (seq!['v', 's', 'c', 'r'], seq!['\u{1D4CB}']),
        497 => (seq!['w', 's', 'c', 'r'], seq!['\u{1D4CC}']),
        498 => (seq!['x', 's', 'c', 'r'], seq!['\u{1D4CD}']),
        499 => (seq!['y', 's', 'c', 'r'], seq!['\u{1D4CE}']),
        500 => (seq!['z', 's', 'c', 'r'], seq!['\u{1D4CF}']),
        501 => (seq!['A', 'b', 'r', 'e', 'v', 'e'], seq!['\u{102}']),
        502 => (seq!['a', 'b', 'r', 'e', 'v', 'e'], seq!['\u{103}']),
        503 => (seq!['A', 'o', 'g', 'o', 'n'], seq!['\u{104}']),
        504 => (seq!['a', 'o', 'g', 'o', 'n'], seq!['\u{105}']),
        505 => (seq!['C', 'a', 'c', 'u', 't', 'e'], seq!['\u{106}']),
        506 => (seq!['c', 'a', 'c', 'u', 't', 'e'], seq!['\u{107}']),
        507 => (seq!['C', 'c', 'i', 'r', 'c'], seq!['\u{108}']),
        508 => (seq!['c', 'c', 'i', 'r', 'c'], seq!['\u{109}']),
        509 => (seq!['C', 'd', 'o', 't'], seq!['\u{10A}']),
        510 => (seq!['c', 'd', 'o', 't'], seq!['\u{10B}']),
        511 => (seq!['E', 'c', 'a', 'r', 'o', 'n'], seq!['\u{11A}']),
        _ => (Seq::empty(), Seq::empty()),
    }
}

pub open spec fn html5_references_32(i: usize) -> (Seq<char>, Seq<char>) {
    match i {
        512 => (seq!['e', 'c', 'a', 'r', 'o', 'n'], seq!['\u{11B}']),
        513 => (seq!['E', 'd', 'o', 't'], seq!['\u{116}']),
        514 => (seq!['e', 'd', 'o', 't'], seq!['\u{117}']),
        515 => (seq!['E', 'o', 'g', 'o', 'n'], seq!['\u{118}']),
        516 => (seq!['e', 'o', 'g', 'o', 'n'], seq!['\u{119}']),
        517 => (seq!['G', 'b', 'r', 'e', 'v', 'e'], seq!['\u{11E}']),
        518 => (seq!['g', 'b', 'r', 'e', 'v', 'e'], seq!['\u{11F}']),
        519 => (seq!['G', 'c', 'e', 'd', 'i', 'l'], seq!['\u{122}']),
        520 => (seq!['H', 'c', 'i', 'r', 'c'], seq!['\u{124}']),
        521 => (seq!['h', 'c', 'i', 'r', 'c'], seq!['\u{125}']),
        522 => (seq!['H', 's', 't', 'r', 'o', 'k'], seq!['\u{126}']),
        523 => (seq!['h', 's', 't', 'r', 'o', 'k'], seq!['\u{127}']),
        524 => (seq!['I', 't', 'i', 'l', 'd', 'e'], seq!['\u{128}']),
        525 => (seq!['i', 't', 'i', 'l', 'd', 'e'], seq!['\u{129}']),
        526 => (seq!['I', 'm', 'a', 'c', 'r'], seq!['\u{12A}']),
        527 => (seq!['i', 'm', 'a', 'c', 'r'], seq!['\u{12B}']),
        _ => (Seq::empty(), Seq::empty()),
    }
}

pub open spec fn html5_references_33(i: usize) -> (Seq<char>, Seq<char>) {
    match i {
        528 => (seq!['I', 'o', 'g', 'o', 'n'], seq!['\u{12E}']),
        529 => (seq!['i', 'o', 'g', 'o', 'n'], seq!['\u{12F}']),
        530 => (seq!['I', 'd', 'o', 't'], seq!['\u{130}']),
        531 => (seq!['i', 'm', 'a', 't', 'h'], seq!['\u{131}']),
        532 => (seq!['J', 'c', 'i', 'r', 'c'], seq!['\u{134}']),
        533 => (seq!['j', 'c', 'i', 'r', 'c'], seq!['\u{135}']),
        534 => (seq!['K', 'c', 'e', 'd', 'i', 'l'], seq!['\u{136}']),
        535 => (seq!['k', 'c', 'e', 'd', 'i', 'l'], seq!['\u{137}']),
        536 => (seq!['L', 'a', 'c', 'u', 't', 'e'], seq!['\u{139}']),
        537 => (seq!['l', 'a', 'c', 'u', 't', 'e'], seq!['\u{13A}']),
        538 => (seq!['L', 'c', 'e', 'd', 'i', 'l'], seq!['\u{13B}']),
        539 => (seq!['l', 'c', 'e', 'd', 'i', 'l'], seq!['\u{13C}']),
        540 => (seq!['L', 'c', 'a', 'r', 'o', 'n'], seq!['\u{13D}']),
        541 => (seq!['l', 'c', 'a', 'r', 'o', 'n'], seq!['\u{13E}']),
        542 => (seq!['L', 'm', 'i', 'd', 'o', 't'], seq!['\u{13F}']),
        543 => (seq!['l', 'm', 'i', 'd', 'o', 't'], seq!['\u{140}']),
        _ => (Seq::empty(), Seq::empty()),
    }
}

pub open spec fn html5_references_34(i: usize) -> (Seq<char>, Seq<char>) {
    match i {
        544 => (seq!['L', 's', 't', 'r', 'o', 'k'], seq!['\u{141}']),
        545 => (seq!['l', 's', 't', 'r', 'o', 'k'], seq!['\u{142}']),
        546 => (seq!['N', 'a', 'c', 'u', 't', 'e'], seq!['\u{143}']),
        547 => (seq!['n', 'a', 'c', 'u', 't', 'e'], seq!['\u{144}']),
        548 => (seq!['N', 'c', 'e', 'd', 'i', 'l'], seq!['\u{145}']),
        549 => (seq!['n', 'c', 'e', 'd', 'i', 'l'], seq!['\u{146}']),
        550 => (seq!['N', 'c', 'a', 'r', 'o', 'n'], seq!['\u{147}']),
        551 => (seq!['n', 'c', 'a', 'r', 'o', 'n'], seq!['\u{148}']),
        552 => (seq!['O', 'm', 'a', 'c', 'r'], seq!['\u{14C}']),
        553 => (seq!['o', 'm', 'a', 'c', 'r'], seq!['\u{14D}']),
        554 => (seq!['O', 'd', 'b', 'l', 'a', 'c'], seq!['\u{150}']),
        555 => (seq!['o', 'd', 'b', 'l', 'a', 'c'], seq!['\u{151}']),
        556 => (seq!['R', 'a', 'c', 'u', 't', 'e'], seq!['\u{154}']),
        557 => (seq!['r', 'a', 'c', 'u', 't', 'e'], seq!['\u{155}']),
        558 => (seq!['R', 'c', 'e', 'd', 'i', 'l'], seq!['\u{156}']),
        559 => (seq!['r', 'c', 'e', 'd', 'i', 'l'], seq!['\u{157}']),
        _ => (Seq::empty(), Seq::empty()),
    }
}

pub open spec fn html5_references_35(i: usize) -> (Seq<char>, Seq<char>) {
    match i {
        560 => (seq!['R', 'c', 'a', 'r', 'o', 'n'], seq!['\u{158}']),
        561 => (seq!['r', 'c', 'a', 'r', 'o', 'n'], seq!['\u{159}']),
        562 => (seq!['S', 'a', 'c', 'u', 't', 'e'], seq!['\u{15A}']),
        563 => (seq!['s', 'a', 'c', 'u', 't', 'e'], seq!['\u{15B}']),
        564 => (seq!['S', 'c', 'i', 'r', 'c'], seq!['\u{15C}']),
        565 => (seq!['s', 'c', 'i', 'r', 'c'], seq!['\u{15D}']),
        566 => (seq!['S', 'c', 'e', 'd', 'i', 'l'], seq!['\u{15E}']),
        567 => (seq!['s', 'c', 'e', 'd', 'i', 'l'], seq!['\u{15F}']),
        568 => (seq!['T', 'c', 'e', 'd', 'i', 'l'], seq!['\u{162}']),
        569 => (seq!['t', 'c', 'e', 'd', 'i', 'l'], seq!['\u{163}']),
        570 => (seq!['T', 'c', 'a', 'r', 'o', 'n'], seq!['\u{164}']),
        571 => (seq!['t', 'c', 'a', 'r', 'o', 'n'], seq!['\u{165}']),
        572 => (seq!['T', 's', 't', 'r', 'o', 'k'], seq!['\u{166}']),
        573 => (seq!['t', 's', 't', 'r', 'o', 'k'], seq!['\u{167}']),
        574 => (seq!['U', 't', 'i', 'l', 'd', 'e'], seq!['\u{168}']),
        575 => (seq!['u', 't', 'i', 'l', 'd', 'e'], seq!['\u{169}']),
        _ => (Seq::empty(), Seq::empty()),
    }
}

pub open spec fn html5_references_36(i: usize) -> (Seq<char>, Seq<char>) {
    match i {
        576 => (seq!['U', 'm', 'a', 'c', 'r'], seq!['\u{16A}']),
        577 => (seq!['u', 'm', 'a', 'c', 'r'], seq!['\u{16B}']),
        578 => (seq!['U', 'r', 'i', 'n', 'g'], seq!['\u{16E}']),
        579 => (seq!['u', 'r', 'i', 'n', 'g'], seq!['\u{16F}']),
        580 => (seq!['U', 'd', 'b', 'l', 'a', 'c'], seq!['\u{170}']),
        581 => (seq!['u', 'd', 'b', 'l', 'a', 'c'], seq!['\u{171}']),
        582 => (seq!['U', 'o', 'g', 'o', 'n'], seq!['\u{172}']),
        583 => (seq!['u', 'o', 'g', 'o', 'n'], seq!['\u{173}']),
        584 => (seq!['W', 'c', 'i', 'r', 'c'], seq!['\u{174}']),
        585 => (seq!['w', 'c', 'i', 'r', 'c'], seq!['\u{175}']),
        586 => (seq!['Y', 'c', 'i', 'r', 'c'], seq!['\u{176}']),
        587 => (seq!['y', 'c', 'i', 'r', 'c'], seq!['\u{177}']),
        588 => (seq!['Z', 'a', 'c', 'u', 't', 'e'], seq!['\u{179}']),
        589 => (seq!['z', 'a', 'c', 'u', 't', 'e'], seq!['\u{17A}']),
        590 => (seq!['Z', 'd', 'o', 't'], seq!['\u{17B}']),
        591 => (seq!['z', 'd', 'o', 't'], seq!['\u{17C}']),
        _ => (Seq::empty(), Seq::empty()),
    }
}

pub open spec fn html5_references_37(i: usize) -> (Seq<char>, Seq<char>) {
    match i {
        592 => (seq!['Z', 'c', 'a', 'r', 'o', 'n'], seq!['\u{17D}']),
        593 => (seq!['z', 'c', 'a', 'r', 'o', 'n'], seq!['\u{17E}']),
        594 => (seq!['f', 'n', 'o', 'f', '2'], seq!['\u{192}']),
        595 => (seq!['i', 'm', 'p', 'e', 'd'], seq!['\u{1B5}']),
        596 => (seq!['g', 'a', 'm', 'm', 'a', '2'], seq!['\u{263}']),
        597 => (seq!['l', 'a', 'm', 'b', 'd', 'a', '2'], seq!['\u{19B}']),
        598 => (seq!['u', 'r', 'i', 'o'], seq!['\u{16D}']),
        599 => (seq!['a', 'p', 'o', 's', '2'], seq!['\u{2BC}']),
        600 => (seq!['l', 's', 'q', 'u', 'o', 'r'], seq!['\u{201A}']),
        601 => (seq!['l', 'd', 'q', 'u', 'o', 'r'], seq!['\u{201E}']),
        602 => (seq!['d', 'a', 'g', 'g', 'e', 'r', '2'], seq!['\u{2020}']),
        603 => (seq!['D', 'a', 'g', 'g', 'e', 'r', '2'], seq!['\u{2021}']),
        604 => (seq!['b', 'u', 'l', 'l', '2'], seq!['\u{2022}']),
        605 => (seq!['n', 'l', 'd', 'r'], seq!['\u{2025}']),
        606 => (seq!['h', 'e', 'l', 'l', 'i', 'p', '2'], seq!['\u{2026}']),
        607 => (seq!['p', 'e', 'r', 't', 'e', 'n', 'k'], seq!['\u{2031}']),
        _ => (Seq::empty(), Seq::empty()),
    }
}

pub open spec fn html5_references_38(i: usize) -> (Seq<char>, Seq<char>) {
    match i {
        608 => (seq!['p', 'r', 'i', 'm', 'e', '2'], seq!['\u{2032}']),
        609 => (seq!['P', 'r', 'i', 'm', 'e', '2'], seq!['\u{2033}']),
        610 => (seq!['t', 'p', 'r', 'i', 'm', 'e'], seq!['\u{2034}']),
        611 => (seq!['b', 'a', 'c', 'k', 'p', 'r', 'i', 'm', 'e'], seq!['\u{2035}']),
        612 => (seq!['o', 'l', 'i', 'n', 'e', '2'], seq!['\u{203E}']),
        613 => (seq!['c', 'a', 'r', 'e', 't'], seq!['\u{2041}']),
        614 => (seq!['s', 'm', 'i', 'l', 'e'], seq!['\u{2323}']),
        615 => (seq!['f', 'r', 'o', 'w', 'n'], seq!['\u{2322}']),
        616 => (seq!['t', 'a', 'r', 'g', 'e', 't'], seq!['\u{2316}']),
        617 => (seq!['t', 'e', 'l', 'r', 'e', 'c'], seq!['\u{2315}']),
        618 => (seq!['t', 'o', 'p', 'b', 'o', 't'], seq!['\u{23B6}']),
        619 => (seq!['b', 'o', 't', 't', 'o', 'm'], seq!['\u{22A5}']),
        620 => (seq!['b', 'o', 't'], seq!['\u{22A5}']),
        621 => (seq!['t', 'o', 'p'], seq!['\u{22A4}']),
        622 => (seq!['v', 'z', 'i', 'g', 'z', 'a', 'g'], seq!['\u{299A}']),
        623 => (seq!['v', 'a', 'n', 'g', 'r', 't'], seq!['\u{299C}']),
        _ => (Seq::empty(), Seq::empty()),
    }
}

pub open spec fn html5_references_39(i: usize) -> (Seq<char>, Seq<char>) {
    match i {
        624 => (seq!['v', 'e', 'e', 'b', 'a', 'r'], seq!['\u{22BB}']),
        625 => (seq!['b', 'a', 'r', 'v', 'e', 'e'], seq!['\u{22BD}']),
        626 => (seq!['a', 'n', 'g', 'r', 't', 'v', 'b', 'd'], seq!['\u{299D}']),
        627 => (seq!['a', 'n', 'g', 'e'], seq!['\u{29A4}']),
        628 => (seq!['r', 'a', 'n', 'g', 'e'], seq!['\u{29A5}']),
        629 => (seq!['d', 'w', 'a', 'n', 'g', 'l', 'e'], seq!['\u{29A6}']),
        630 => (seq!['u', 'w', 'a', 'n', 'g', 'l', 'e'], seq!['\u{29A7}']),
        631 => (seq!['s', 'e', 'a', 'r', 'h', 'k'], seq!['\u{2925}']),
        632 => (seq!['s', 'w', 'a', 'r', 'h', 'k'], seq!['\u{2926}']),
        633 => (seq!['n', 'e', 'a', 'r', 'h', 'k'], seq!['\u{2924}']),
        634 => (seq!['n', 'w', 'a', 'r', 'h', 'k'], seq!['\u{2923}']),
        635 => (seq!['n', 'w', 'a', 'r', 'r'], seq!['\u{2196}']),
        636 => (seq!['n', 'e', 'a', 'r', 'r'], seq!['\u{2197}']),
        637 => (seq!['s', 'e', 'a', 'r', 'r'], seq!['\u{2198}']),
        638 => (seq!['s', 'w', 'a', 'r', 'r'], seq!['\u{2199}']),
        639 => (seq!['n', 'l', 'a', 'r', 'r'], seq!['\u{219A}']),
        _ => (Seq::empty(), Seq::empty()),
    }
}

pub open spec fn html5_references_40(i: usize) -> (Seq<char>, Seq<char>) {
    match i {
        640 => (seq!['n', 'r', 'a', 'r', 'r'], seq!['\u{219B}']),
        641 => (seq!['r', 'a', 'r', 'r', 'w'], seq!['\u{219D}']),
        642 => (seq!['l', 'a', 'r', 'r', 'w'], seq!['\u{219C}']),
        643 => (seq!['u', 'p', 'd', 'o', 'w', 'n', 'a', 'r', 'r', 'o', 'w'], seq!['\u{21C5}']),
        644 => (seq!['U', 'p', 'd', 'o', 'w', 'n', 'a', 'r', 'r', 'o', 'w'], seq!['\u{21D5}']),
        645 => (seq!['R', 'i', 'g', 'h', 't', 'A', 'r', 'r', 'o', 'w', 'L', 'e', 'f', 't', 'A', 'r', 'r', 'o', 'w'], seq!['\u{21C4}']),
        646 => (seq!['L', 'e', 'f', 't', 'A', 'r', 'r', 'o', 'w', 'R', 'i', 'g', 'h', 't', 'A', 'r', 'r', 'o', 'w'], seq!['\u{21C6}']),
        647 => (seq!['l', 'e', 'f', 't', 'a', 'r', 'r', 'o', 'w'], seq!['\u{2190}']),
        648 => (seq!['r', 'i', 'g', 'h', 't', 'a', 'r', 'r', 'o', 'w'], seq!['\u{2192}']),
        649 => (seq!['u', 'p', 'a', 'r', 'r', 'o', 'w'], seq!['\u{2191}']),
        650 => (seq!['d', 'o', 'w', 'n', 'a', 'r', 'r', 'o', 'w'], seq!['\u{2193}']),
        651 => (seq!['l', 'e', 'f', 't', 'r', 'i', 'g', 'h', 't', 'a', 'r', 'r', 'o', 'w'], seq!['\u{2194}']),
        652 => (seq!['n', 'w', 'a', 'r', 'r', 'o', 'w'], seq!['\u{2196}']),
        653 => (seq!['n', 'e', 'a', 'r', 'r', 'o', 'w'], seq!['\u{2197}']),
        654 => (seq!['s', 'e', 'a', 'r', 'r', 'o', 'w'], seq!['\u{2198}']),
        655 => (seq!['s', 'w', 'a', 'r', 'r', 'o', 'w'], seq!['\u{2199}']),
        _ => (Seq::empty(), Seq::empty()),
    }
}

pub open spec fn html5_references_41(i: usize) -> (Seq<char>, Seq<char>) {
    match i {
        656 => (seq!['h', 'o', 'o', 'k', 'l', 'e', 'f', 't', 'a', 'r', 'r', 'o', 'w'], seq!['\u{21A9}']),
        657 => (seq!['h', 'o', 'o', 'k', 'r', 'i', 'g', 'h', 't', 'a', 'r', 'r', 'o', 'w'], seq!['\u{21AA}']),
        658 => (seq!['l', 'o', 'o', 'p', 'a', 'r', 'r', 'o', 'w', 'l', 'e', 'f', 't'], seq!['\u{21AB}']),
        659 => (seq!['l', 'o', 'o', 'p', 'a', 'r', 'r', 'o', 'w', 'r', 'i', 'g', 'h', 't'], seq!['\u{21AC}']),
        660 => (seq!['l', 'e', 'f', 't', 'h', 'a', 'r', 'p', 'o', 'o', 'n', 'u', 'p'], seq!['\u{21BC}']),
        661 => (seq!['l', 'e', 'f', 't', 'h', 'a', 'r', 'p', 'o', 'o', 'n', 'd', 'o', 'w', 'n'], seq!['\u{21BD}']),
        662 => (seq!['u', 'p', 'h', 'a', 'r', 'p', 'o', 'o', 'n', 'r', 'i', 'g', 'h', 't'], seq!['\u{21BE}']),
        663 => (seq!['u', 'p', 'h', 'a', 'r', 'p', 'o', 'o', 'n', 'l', 'e', 'f', 't'], seq!['\u{21BF}']),
        664 => (seq!['r', 'i', 'g', 'h', 't', 'h', 'a', 'r', 'p', 'o', 'o', 'n', 'u', 'p'], seq!['\u{21C0}']),
        665 => (seq!['r', 'i', 'g', 'h', 't', 'h', 'a', 'r', 'p', 'o', 'o', 'n', 'd', 'o', 'w', 'n'], seq!['\u{21C1}']),
        666 => (seq!['d', 'o', 'w', 'n', 'h', 'a', 'r', 'p', 'o', 'o', 'n', 'r', 'i', 'g', 'h', 't'], seq!['\u{21C2}']),
        667 => (seq!['d', 'o', 'w', 'n', 'h', 'a', 'r', 'p', 'o', 'o', 'n', 'l', 'e', 'f', 't'], seq!['\u{21C3}']),
        668 => (seq!['r', 'i', 'g', 'h', 't', 's', 'q', 'u', 'i', 'g', 'a', 'r', 'r', 'o', 'w'], seq!['\u{21DD}']),
        669 => (seq!['l', 'e', 'f', 't', 'r', 'i', 'g', 'h', 't', 's', 'q', 'u', 'i', 'g', 'a', 'r', 'r', 'o', 'w'], seq!['\u{21AD}']),
        670 => (seq!['U', 'p', 'A', 'r', 'r', 'o', 'w', 'D', 'o', 'w', 'n', 'A', 'r', 'r', 'o', 'w'], seq!['\u{21C5}']),
        671 => (seq!['B', 'a', 'r', 'w', 'e', 'd'], seq!['\u{2306}']),
        _ => (Seq::empty(), Seq::empty()),
    }
}

pub open spec fn html5_references_42(i: usize) -> (Seq<char>, Seq<char>) {
    match i {
        672 => (seq!['l', 't', 'h', 'r', 'e', 'e'], seq!['\u{22CB}']),
        673 => (seq!['r', 't', 'h', 'r', 'e', 'e'], seq!['\u{22CC}']),
        674 => (seq!['d', 'o', 't', 'e', 'q'], seq!['\u{2250}']),
        675 => (seq!['d', 'o', 't', 'e', 'q', 'd', 'o', 't'], seq!['\u{2251}']),
        676 => (seq!['\u{20}', 'r', 'i', 's', 'i', 'n', 'g', 'd', 'o', 't', 's', 'e', 'q'], seq!['\u{2253}']),
        677 => (seq!['f', 'a', 'l', 'l', 'i', 'n', 'g', 'd', 'o', 't', 's', 'e', 'q'], seq!['\u{2252}']),
        678 => (seq!['e', 'q', 'c', 'i', 'r', 'c'], seq!['\u{2256}']),
        679 => (seq!['c', 'i', 'r', 'c', 'e', 'q'], seq!['\u{2257}']),
        680 => (seq!['t', 'r', 'i', 'a', 'n', 'g', 'l', 'e', 'q'], seq!['\u{225C}']),
        681 => (seq!['t', 'h', 'i', 'c', 'k', 's', 'i', 'm'], seq!['\u{223C}']),
        682 => (seq!['t', 'h', 'i', 'c', 'k', 'a', 'p', 'p', 'r', 'o', 'x'], seq!['\u{2248}']),
        683 => (seq!['a', 'p', 'p', 'r', 'o', 'x', 'e', 'q'], seq!['\u{224A}']),
        684 => (seq!['s', 'u', 'c', 'c', 'a', 'p', 'p', 'r', 'o', 'x'], seq!['\u{2AB8}']),
        685 => (seq!['p', 'r', 'e', 'c', 'a', 'p', 'p', 'r', 'o', 'x'], seq!['\u{2AB7}']),
        686 => (seq!['s', 'u', 'b', 's', 'e', 't', 'e', 'q', 'q'], seq!['\u{2AC5}']),
        687 => (seq!['s', 'u', 'p', 's', 'e', 't', 'e', 'q', 'q'], seq!['\u{2AC6}']),
        _ => (Seq::empty(), Seq::empty()),
    }
}

pub open spec fn html5_references_43(i: usize) -> (Seq<char>, Seq<char>) {
    match i {
        688 => (seq!['s', 'u', 'b', 's', 'e', 't', 'n', 'e', 'q'], seq!['\u{228A}']),
        689 => (seq!['s', 'u', 'p', 's', 'e', 't', 'n', 'e', 'q'], seq!['\u{228B}']),
        690 => (seq!['v', 'a', 'r', 's', 'u', 'b', 's', 'e', 't', 'n', 'e', 'q'], seq!['\u{228A}']),
        691 => (seq!['v', 'a', 'r', 's', 'u', 'p', 's', 'e', 't', 'n', 'e', 'q'], seq!['\u{228B}']),
        692 => (seq!['l', 'e', 's', 's', 'd', 'o', 't'], seq!['\u{22D6}']),
        693 => (seq!['g', 't', 'r', 'd', 'o', 't'], seq!['\u{22D7}']),
        694 => (seq!['l', 'l', 'l'], seq!['\u{22D8}']),
        695 => (seq!['g', 'g', 'g'], seq!['\u{22D9}']),
        696 => (seq!['l', 'e', 's', 's', 'e', 'q', 'g', 't', 'r'], seq!['\u{22DA}']),
        697 => (seq!['g', 't', 'r', 'e', 'q', 'l', 'e', 's', 's'], seq!['\u{22DB}']),
        698 => (seq!['c', 'u', 'r', 'l', 'y', 'e', 'q', 'p', 'r', 'e', 'c'], seq!['\u{22DE}']),
        699 => (seq!['c', 'u', 'r', 'l', 'y', 'e', 'q', 's', 'u', 'c', 'c'], seq!['\u{22DF}']),
        700 => (seq!['p', 'r', 'e', 'c', 'c', 'u', 'r', 'l', 'y', 'e', 'q'], seq!['\u{227C}']),
        701 => (seq!['s', 'u', 'c', 'c', 'c', 'u', 'r', 'l', 'y', 'e', 'q'], seq!['\u{227D}']),
        702 => (seq!['p', 'r', 'e', 'c', 's', 'i', 'm'], seq!['\u{227E}']),
        703 => (seq!['s', 'u', 'c', 'c', 's', 'i', 'm'], seq!['\u{227F}']),
        _ => (Seq::empty(), Seq::empty()),
    }
}

pub open spec fn html5_references_44(i: usize) -> (Seq<char>, Seq<char>) {
    match i {
        704 => (seq!['n', 'p', 'r', 'e', 'c'], seq!['\u{2280}']),
        705 => (seq!['n', 's', 'u', 'c', 'c'], seq!['\u{2281}']),
        706 => (seq!['n', 's', 'i', 'm'], seq!['\u{2241}']),
        707 => (seq!['n', 'c', 'o', 'n', 'g'], seq!['\u{2247}']),
        708 => (seq!['n', 'a', 'p', 'p', 'r', 'o', 'x'], seq!['\u{2249}']),
        709 => (seq!['n', 'e', 'q', 'u', 'i', 'v'], seq!['\u{2262}']),
        710 => (seq!['n', 'g', 'e', 'q'], seq!['\u{2271}']),
        711 => (seq!['n', 'l', 'e', 'q'], seq!['\u{2270}']),
        712 => (seq!['n', 'g', 't', 'r'], seq!['\u{226F}']),
        713 => (seq!['n', 'l', 'e', 's', 's'], seq!['\u{226E}']),
        714 => (seq!['n', 'g', 'E'], seq!['\u{2267}', '\u{338}']),
        715 => (seq!['n', 'g', 'e'], seq!['\u{2271}']),
        716 => (seq!['n', 'g', 'e', 's'], seq!['\u{2A7E}', '\u{338}']),
        717 => (seq!['n', 'G', 'g'], seq!['\u{22D9}', '\u{338}']),
        718 => (seq!['v', 'e', 'l', 'l', 'i', 'p'], seq!['\u{22EE}']),
        719 => (seq!['c', 't', 'd', 'o', 't'], seq!['\u{22EF}']),
        _ => (Seq::empty(), Seq::empty()),
    }
}

pub open spec fn html5_references_45(i: usize) -> (Seq<char>, Seq<char>) {
    match i {
        720 => (seq!['u', 't', 'd', 'o', 't'], seq!['\u{22F0}']),
        721 => (seq!['d', 't', 'd', 'o', 't'], seq!['\u{22F1}']),
        722 => (seq!['d', 'i', 's', 'i', 'n'], seq!['\u{22F2}']),
        723 => (seq!['i', 's', 'i', 'n', 's'], seq!['\u{22F3}']),
        724 => (seq!['i', 's', 'i', 'n', 'd', 'o', 't'], seq!['\u{22F5}']),
        725 => (seq!['n', 'o', 't', 'i', 'n', 'd', 'o', 't'], seq!['\u{22F5}']),
        726 => (seq!['n', 'o', 't', 'i', 'n', 'v', 'c'], seq!['\u{22F6}']),
        727 => (seq!['n', 'o', 't', 'i', 'n', 'v', 'b'], seq!['\u{22F7}']),
        728 => (seq!['i', 's', 'i', 'n', 'E'], seq!['\u{22F9}']),
        729 => (seq!['n', 'i', 's', 'd'], seq!['\u{22FA}']),
        730 => (seq!['x', 'n', 'i', 's'], seq!['\u{22FB}']),
        731 => (seq!['n', 'i', 's'], seq!['\u{22FC}']),
        732 => (seq!['n', 'o', 't', 'n', 'i', 'v', 'c'], seq!['\u{22FD}']),
        733 => (seq!['n', 'o', 't', 'n', 'i', 'v', 'b'], seq!['\u{22FE}']),
        734 => (seq!['\u{20}', 'c', 'o', 'm', 'p', 'l', 'e', 'm', 'e', 'n', 't'], seq!['\u{2201}']),
        735 => (seq!['e', 't', 'h', '2'], seq!['\u{F0}']),
        _ => (Seq::empty(), Seq::empty()),
    }
}

pub open spec fn html5_references_46(i: usize) -> (Seq<char>, Seq<char>) {
    match i {
        736 => (seq!['\u{20}', 'A', 'b', 'e', 'l'], seq!['\u{212C}']),
        737 => (seq!['b', 'e', 'r', 'n', 'o', 'u'], seq!['\u{212C}']),
        738 => (seq!['B', 's', 'c', 'r'], seq!['\u{212C}']),
        739 => (seq!['C', 'a', 'y', 'l', 'e', 'y', 's'], seq!['\u{212D}']),
        740 => (seq!['c', 'c', 'u', 'p', 's'], seq!['\u{2A4C}']),
        741 => (seq!['c', 'c', 'a', 'p', 's'], seq!['\u{2A4D}']),
        742 => (seq!['n', 'u', 'm', 'e', 'r', 'o'], seq!['\u{2116}']),
        743 => (seq!['c', 'o', 'p', 'y', 's', 'r'], seq!['\u{2117}']),
        744 => (seq!['i', 'n', 'c', 'a', 'r', 'e', '2'], seq!['\u{2105}']),
        745 => (seq!['n', 'u', 'm', 'e', 'r', 'o', '2'], seq!['\u{2116}']),
        746 => (seq!['r', 'x'], seq!['\u{211E}']),
        747 => (seq!['t', 'r', 'a', 'd', 'e', '2'], seq!['\u{2122}']),
        748 => (seq!['O', 'h', 'm'], seq!['\u{3A9}']),
        749 => (seq!['o', 'h', 'm'], seq!['\u{3C9}']),
        750 => (seq!['m', 'h', 'o'], seq!['\u{2127}']),
        751 => (seq!['a', 'n', 'g', 's', 't', 'r', 'o', 'm'], seq!['\u{C5}']),
        _ => (Seq::empty(), Seq::empty()),
    }
}

pub open spec fn html5_references_47(i: usize) -> (Seq<char>, Seq<char>) {
    match i {
        752 => (seq!['h', 'b', 'a', 'r'], seq!['\u{210F}']),
        753 => (seq!['h', 's', 'l', 'a', 's', 'h'], seq!['\u{210F}']),
        754 => (seq!['e', 'l', 'l'], seq!['\u{2113}']),
        755 => (seq!['n', 'u', 'm', 'e', 'r', 'o', '3'], seq!['\u{2116}']),
        756 => (seq!['\u{20}', 'n', 'a', 't', 'u', 'r', 'a', 'l', 's'], seq!['\u{2115}']),
        757 => (seq!['i', 'n', 't', 'e', 'g', 'e', 'r', 's'], seq!['\u{2124}']),
        758 => (seq!['r', 'a', 't', 'i', 'o', 'n', 'a', 'l', 's'], seq!['\u{211A}']),
        759 => (seq!['r', 'e', 'a', 'l', 's'], seq!['\u{211D}']),
        760 => (seq!['c', 'o', 'm', 'p', 'l', 'e', 'x', 'e', 's'], seq!['\u{2102}']),
        761 => (seq!['p', 'r', 'i', 'm', 'e', 's'], seq!['\u{2119}']),
        762 => (seq!['\u{20}', 'S', 'u', 'c', 'h', 'T', 'h', 'a', 't'], seq!['\u{220B}']),
        763 => (seq!['B', 'a', 'c', 'k', 's', 'l', 'a', 's', 'h'], seq!['\u{2216}']),
        764 => (seq!['s', 'e', 't', 'm', 'i', 'n', 'u', 's'], seq!['\u{2216}']),
        765 => (seq!['s', 'm', 'a', 'l', 'l', 's', 'e', 't', 'm', 'i', 'n', 'u', 's'], seq!['\u{2216}']),
        766 => (seq!['a', 's', 't'], seq!['\u{2217}']),
        767 => (seq!['c', 'i', 'r', 'c', 'l', 'e', 'd', 'a', 's', 't'], seq!['\u{229B}']),
        _ => (Seq::empty(), Seq::empty()),
    }
}

pub open spec fn html5_references_48(i: usize) -> (Seq<char>, Seq<char>) {
    match i {
        768 => (seq!['c', 'i', 'r', 'c', 'l', 'e', 'd', 'c', 'i', 'r', 'c'], seq!['\u{229A}']),
        769 => (seq!['c', 'i', 'r', 'c', 'l', 'e', 'd', 'd', 'a', 's', 'h'], seq!['\u{229D}']),
        770 => (seq!['o', 'd', 'o', 't'], seq!['\u{2299}']),
        771 => (seq!['o', 'm', 'i', 'n', 'u', 's'], seq!['\u{2296}']),
        772 => (seq!['o', 's', 'l', 'a', 's', 'h'], seq!['\u{2298}']),
        773 => (seq!['b', 'o', 'x', 'm', 'i', 'n', 'u', 's'], seq!['\u{229F}']),
        774 => (seq!['b', 'o', 'x', 'p', 'l', 'u', 's'], seq!['\u{229E}']),
        775 => (seq!['b', 'o', 'x', 't', 'i', 'm', 'e', 's'], seq!['\u{22A0}']),
        776 => (seq!['b', 'o', 'x', 'd', 'o', 't'], seq!['\u{22A1}']),
        777 => (seq!['v', 'd', 'a', 's', 'h'], seq!['\u{22A2}']),
        778 => (seq!['d', 'a', 's', 'h', 'v'], seq!['\u{22A3}']),
        779 => (seq!['t', 'o', 'p', '2'], seq!['\u{22A4}']),
        780 => (seq!['m', 'o', 'd', 'e', 'l', 's'], seq!['\u{22A7}']),
        781 => (seq!['v', 'D', 'a', 's', 'h'], seq!['\u{22A8}']),
        782 => (seq!['V', 'd', 'a', 's', 'h'], seq!['\u{22A9}']),
        783 => (seq!['V', 'v', 'd', 'a', 's', 'h'], seq!['\u{22AA}']),
        _ => (Seq::empty(), Seq::empty()),
    }
}

pub open spec fn html5_references_49(i: usize) -> (Seq<char>, Seq<char>) {
    match i {
        784 => (seq!['V', 'D', 'a', 's', 'h'], seq!['\u{22AB}']),
        785 => (seq!['n', 'v', 'd', 'a', 's', 'h'], seq!['\u{22AC}']),
        786 => (seq!['n', 'v', 'D', 'a', 's', 'h'], seq!['\u{22AD}']),
        787 => (seq!['n', 'V', 'd', 'a', 's', 'h'], seq!['\u{22AE}']),
        788 => (seq!['n', 'V', 'D', 'a', 's', 'h'], seq!['\u{22AF}']),
        789 => (seq!['p', 'r', 'u', 'r', 'e', 'l'], seq!['\u{22B0}']),
        790 => (seq!['s', 'c', 'u', 'r', 'e', 'l'], seq!['\u{22B1}']),
        791 => (seq!['t', 'r', 'i', 'a', 'n', 'g', 'l', 'e', 'l', 'e', 'f', 't'], seq!['\u{22B2}']),
        792 => (seq!['t', 'r', 'i', 'a', 'n', 'g', 'l', 'e', 'r', 'i', 'g', 'h', 't'], seq!['\u{22B3}']),
        793 => (seq!['u', 'n', 'l', 'h', 'd'], seq!['\u{22B4}']),
        794 => (seq!['u', 'n', 'r', 'h', 'd'], seq!['\u{22B5}']),
        795 => (seq!['m', 'u', 'l', 't', 'i', 'm', 'a', 'p'], seq!['\u{22B8}']),
        796 => (seq!['m', 'u', 'm', 'a', 'p'], seq!['\u{22B8}']),
        797 => (seq!['s', 'q', 's', 'u', 'b', 's', 'e', 't'], seq!['\u{228F}']),
        798 => (seq!['s', 'q', 's', 'u', 'p', 's', 'e', 't'], seq!['\u{2290}']),
        799 => (seq!['s', 'q', 's', 'u', 'b'], seq!['\u{228F}']),
        _ => (Seq::empty(), Seq::empty()),
    }
}

pub open spec fn html5_references_50(i: usize) -> (Seq<char>, Seq<char>) {
    match i {
        800 => (seq!['s', 'q', 's', 'u', 'p'], seq!['\u{2290}']),
        801 => (seq!['s', 'q', 's', 'u', 'b', 's', 'e', 't', 'e', 'q'], seq!['\u{2291}']),
        802 => (seq!['s', 'q', 's', 'u', 'p', 's', 'e', 't', 'e', 'q'], seq!['\u{2292}']),
        803 => (seq!['d', 'i', 'a', 'm', 'o', 'n', 'd'], seq!['\u{22C4}']),
        804 => (seq!['c', 'd', 'o', 't', '2'], seq!['\u{22C5}']),
        805 => (seq!['s', 't', 'a', 'r', '2'], seq!['\u{22C6}']),
        806 => (seq!['d', 'i', 'v', 'i', 'd', 'e', 'o', 'n', 't', 'i', 'm', 'e', 's'], seq!['\u{22C7}']),
        807 => (seq!['b', 'o', 'w', 't', 'i', 'e'], seq!['\u{22C8}']),
        808 => (seq!['l', 't', 'i', 'm', 'e', 's'], seq!['\u{22C9}']),
        809 => (seq!['r', 't', 'i', 'm', 'e', 's'], seq!['\u{22CA}']),
        810 => (seq!['l', 'e', 'f', 't', 't', 'h', 'r', 'e', 'e', 't', 'i', 'm', 'e', 's'], seq!['\u{22CB}']),
        811 => (seq!['r', 'i', 'g', 'h', 't', 't', 'h', 'r', 'e', 'e', 't', 'i', 'm', 'e', 's'], seq!['\u{22CC}']),
        812 => (seq!['b', 'a', 'c', 'k', 's', 'i', 'm', 'e', 'q'], seq!['\u{22CD}']),
        813 => (seq!['c', 'u', 'r', 'l', 'y', 'v', 'e', 'e'], seq!['\u{22CE}']),
        814 => (seq!['c', 'u', 'r', 'l', 'y', 'w', 'e', 'd', 'g', 'e'], seq!['\u{22CF}']),
        815 => (seq!['S', 'u', 'b', 's', 'e', 't'], seq!['\u{22D0}']),
        _ => (Seq::empty(), Seq::empty()),
    }
}

pub open spec fn html5_references_51(i: usize) -> (Seq<char>, Seq<char>) {
    match i {
        816 => (seq!['S', 'u', 'p', 's', 'e', 't'], seq!['\u{22D1}']),
        817 => (seq!['C', 'a', 'p', '2'], seq!['\u{22D2}']),
        818 => (seq!['C', 'u', 'p', '2'], seq!['\u{22D3}']),
        819 => (seq!['p', 'i', 't', 'c', 'h', 'f', 'o', 'r', 'k'], seq!['\u{22D4}']),
        820 => (seq!['l', 'e', 's', 's', 'l', 'e', 's', 's'], seq!['\u{2AA1}']),
        821 => (seq!['g', 'r', 'e', 'a', 't', 'g', 'r', 'e', 'a', 't'], seq!['\u{2AA2}']),
        822 => (seq!['p', 'r', 'e', 'c', 'n', 'e', 'q'], seq!['\u{2AB5}']),
        823 => (seq!['s', 'u', 'c', 'c', 'n', 'e', 'q'], seq!['\u{2AB6}']),
        824 => (seq!['p', 'r', 'e', 'c', 'e', 'q'], seq!['\u{2AAF}']),
        825 => (seq!['s', 'u', 'c', 'c', 'e', 'q'], seq!['\u{2AB0}']),
        826 => (seq!['G', 'r', 'a', 'n', 'd'], seq!['\u{2AA2}']),
        827 => (seq!['L', 'l'], seq!['\u{22D8}']),
        828 => (seq!['G', 'g'], seq!['\u{22D9}']),
        829 => (seq!['q', 'u', 'e', 's', 't', 'e', 'q'], seq!['\u{225F}']),
        830 => (seq!['N', 'o', 't', 'E', 'q', 'u', 'a', 'l', 'T', 'i', 'l', 'd', 'e'], seq!['\u{2242}']),
        831 => (seq!['n', 'o', 't', 'a', 'p', 'p', 'r', 'o', 'x'], seq!['\u{2249}']),
        _ => (Seq::empty(), Seq::empty()),
    }
}

pub open spec fn html5_references_52(i: usize) -> (Seq<char>, Seq<char>) {
    match i {
        832 => (seq!['a', 'p', 'p', 'r', 'o', 'x'], seq!['\u{2248}']),
        833 => (seq!['s', 'i', 'm', 'e', 'q'], seq!['\u{2243}']),
        834 => (seq!['s', 'i', 'm', 'e'], seq!['\u{2243}']),
        835 => (seq!['n', 's', 'i', 'm', 'e'], seq!['\u{2244}']),
        836 => (seq!['n', 's', 'i', 'm', 'e', 'q'], seq!['\u{2244}']),
        837 => (seq!['n', 's', 'i', 'm', '2'], seq!['\u{2241}']),
        838 => (seq!['b', 'c', 'o', 'n', 'g'], seq!['\u{224C}']),
        839 => (seq!['c', 'u', 'p', 'd', 'o', 't'], seq!['\u{228D}']),
        840 => (seq!['U', 'n', 'i', 'o', 'n', 'P', 'l', 'u', 's'], seq!['\u{228E}']),
        841 => (seq!['s', 'q', 'c', 'u', 'p'], seq!['\u{2294}']),
        842 => (seq!['s', 'q', 'c', 'a', 'p'], seq!['\u{2293}']),
        843 => (seq!['a', 'm', 'a', 'l', 'g'], seq!['\u{2A3F}']),
        844 => (seq!['d', 'a', 'g', 'g', 'e', 'r', '3'], seq!['\u{2020}']),
        845 => (seq!['d', 'd', 'a', 'g', 'g', 'e', 'r'], seq!['\u{2021}']),
        846 => (seq!['D', 'a', 'g', 'g', 'e', 'r', '3'], seq!['\u{2021}']),
        847 => (seq!['s', 'h', 'a', 'r', 'p'], seq!['\u{266F}']),
        _ => (Seq::empty(), Seq::empty()),
    }
}

pub open spec fn html5_references_53(i: usize) -> (Seq<char>, Seq<char>) {
    match i {
        848 => (seq!['f', 'l', 'a', 't'], seq!['\u{266D}']),
        849 => (seq!['n', 'a', 't', 'u', 'r', 'a', 'l'], seq!['\u{266E}']),
        850 => (seq!['c', 'l', 'u', 'b', 's', 'u', 'i', 't'], seq!['\u{2663}']),
        851 => (seq!['s', 'p', 'a', 'd', 'e', 's', 'u', 'i', 't'], seq!['\u{2660}']),
        852 => (seq!['h', 'e', 'a', 'r', 't', 's', 'u', 'i', 't'], seq!['\u{2665}']),
        853 => (seq!['d', 'i', 'a', 'm', 's', 'u', 'i', 't'], seq!['\u{2666}']),
        854 => (seq!['t', 'e', 'l', 'e', 'p', 'h', 'o', 'n', 'e'], seq!['\u{2706}']),
        855 => (seq!['c', 'i', 'r', 'c', 'l', 'e', 'd', 'R'], seq!['\u{AE}']),
        856 => (seq!['c', 'i', 'r', 'c', 'l', 'e', 'd', 'S'], seq!['\u{24C8}']),
        857 => (seq!['c', 'i', 'r', 'c', 'l', 'e', 'd', 'C'], seq!['\u{A9}']),
        858 => (seq!['n', 'u', 'm', 'e', 'r', 'o', '4'], seq!['\u{2116}']),
        859 => (seq!['b', 'i', 'g', 's', 't', 'a', 'r'], seq!['\u{2605}']),
        860 => (seq!['b', 'i', 'g', 'c', 'i', 'r', 'c', 'l', 'e'], seq!['\u{25CB}']),
        861 => (seq!['b', 'l', 'a', 'c', 'k', 's', 't', 'a', 'r'], seq!['\u{2605}']),
        862 => (seq!['w', 'h', 'i', 't', 'e', 's', 't', 'a', 'r'], seq!['\u{2606}']),
        863 => (seq!['b', 'l', 'a', 'c', 'k', 'c', 'i', 'r', 'c', 'l', 'e'], seq!['\u{25CF}']),
        _ => (Seq::empty(), Seq::empty()),
    }
}

pub open spec fn html5_references_54(i: usize) -> (Seq<char>, Seq<char>) {
    match i {
        864 => (seq!['w', 'h', 'i', 't', 'e', 'c', 'i', 'r', 'c', 'l', 'e'], seq!['\u{25CB}']),
        865 => (seq!['b', 'l', 'a', 'c', 'k', 's', 'q', 'u', 'a', 'r', 'e'], seq!['\u{25A0}']),
        866 => (seq!['w', 'h', 'i', 't', 'e', 's', 'q', 'u', 'a', 'r', 'e'], seq!['\u{25A1}']),
        867 => (seq!['b', 'l', 'a', 'c', 'k', 'd', 'i', 'a', 'm', 'o', 'n', 'd'], seq!['\u{25C6}']),
        868 => (seq!['w', 'h', 'i', 't', 'e', 'd', 'i', 'a', 'm', 'o', 'n', 'd'], seq!['\u{25C7}']),
        869 => (seq!['b', 'l', 'a', 'c', 'k', 't', 'r', 'i', 'a', 'n', 'g', 'l', 'e'], seq!['\u{25B2}']),
        870 => (seq!['w', 'h', 'i', 't', 'e', 't', 'r', 'i', 'a', 'n', 'g', 'l', 'e'], seq!['\u{25B3}']),
        871 => (seq!['b', 'l', 'a', 'c', 'k', 't', 'r', 'i', 'a', 'n', 'g', 'l', 'e', 'd', 'o', 'w', 'n'], seq!['\u{25BC}']),
        872 => (seq!['w', 'h', 'i', 't', 'e', 't', 'r', 'i', 'a', 'n', 'g', 'l', 'e', 'd', 'o', 'w', 'n'], seq!['\u{25BD}']),
        873 => (seq!['s', 'p', 'a', 'd', 'e', 's', '2'], seq!['\u{2660}']),
        874 => (seq!['c', 'l', 'u', 'b', 's', '2'], seq!['\u{2663}']),
        875 => (seq!['h', 'e', 'a', 'r', 't', 's', '2'], seq!['\u{2665}']),
        876 => (seq!['d', 'i', 'a', 'm', 's', '2'], seq!['\u{2666}']),
        877 => (seq!['a', 'l', 'e', 'p', 'h'], seq!['\u{2135}']),
        878 => (seq!['b', 'e', 't', 'h'], seq!['\u{2136}']),
        879 => (seq!['g', 'i', 'm', 'e', 'l'], seq!['\u{2137}']),
        _ => (Seq::empty(), Seq::empty()),
    }
}

pub open spec fn html5_references_55(i: usize) -> (Seq<char>, Seq<char>) {
    match i {
        880 => (seq!['d', 'a', 'l', 'e', 't', 'h'], seq!['\u{2138}']),
        881 => (seq!['e', 'l', 'l', '2'], seq!['\u{2113}']),
        882 => (seq!['w', 'p'], seq!['\u{2118}']),
        883 => (seq!['R', 'e'], seq!['\u{211C}']),
        884 => (seq!['I', 'm'], seq!['\u{2111}']),
        885 => (seq!['o', 't', 'i', 'm', 'e', 's', 'a', 's'], seq!['\u{2A36}']),
        886 => (seq!['o', 'p', 'l', 'u', 's', '2'], seq!['\u{2295}']),
        887 => (seq!['o', 't', 'i', 'm', 'e', 's', '2'], seq!['\u{2297}']),
        888 => (seq!['p', 'l', 'u', 's', 'd', 'o'], seq!['\u{2214}']),
        889 => (seq!['m', 'i', 'n', 'u', 's', 'd', 'o'], seq!['\u{2238}']),
        890 => (seq!['d', 'o', 't', 'p', 'l', 'u', 's'], seq!['\u{2214}']),
        891 => (seq!['s', 'e', 't', 'm', 'n'], seq!['\u{2216}']),
        892 => (seq!['c', 'o', 'm', 'p', 'f', 'n'], seq!['\u{2218}']),
        893 => (seq!['c', 'i', 'r'], seq!['\u{25CB}']),
        894 => (seq!['c', 'i', 'r', 'c', '2'], seq!['\u{2218}']),
        895 => (seq!['b', 'u', 'l', 'l', 'e', 't'], seq!['\u{2219}']),
        _ => (Seq::empty(), Seq::empty()),
    }
}

pub open spec fn html5_references_56(i: usize) -> (Seq<char>, Seq<char>) {
    match i {
        896 => (seq!['i', 'n', 'f', 'i', 'n', 't', 'i', 'e'], seq!['\u{29DC}']),
        897 => (seq!['t', 'i', 'e'], seq!['\u{2040}']),
        898 => (seq!['f', 'r', 'o', 'w', 'n', '2'], seq!['\u{2322}']),
        899 => (seq!['s', 'm', 'i', 'l', 'e', '2'], seq!['\u{2323}']),
        900 => (seq!['l', 'a', 'n', 'g', 'l', 'e'], seq!['\u{27E8}']),
        901 => (seq!['r', 'a', 'n', 'g', 'l', 'e'], seq!['\u{27E9}']),
        902 => (seq!['L', 't'], seq!['\u{226A}']),
        903 => (seq!['G', 't'], seq!['\u{226B}']),
        904 => (seq!['L', 't', '2'], seq!['\u{226A}']),
        905 => (seq!['G', 't', '2'], seq!['\u{226B}']),
        906 => (seq!['h', 'o', 'e'], seq!['\u{2218}']),
        907 => (seq!['q', 'u', 'e', 's', 't', '2'], seq!['\u{3F}']),
        908 => (seq!['e', 'x', 'c', 'l'], seq!['\u{21}']),
        909 => (seq!['n', 'u', 'm', '2'], seq!['\u{23}']),
        910 => (seq!['d', 'o', 'l', 'l', 'a', 'r', '2'], seq!['\u{24}']),
        911 => (seq!['p', 'e', 'r', 'c', 'n', 't', '2'], seq!['\u{25}']),
        _ => (Seq::empty(), Seq::empty()),
    }
}

pub open spec fn html5_references_57(i: usize) -> (Seq<char>, Seq<char>) {
    match i {
        912 => (seq!['a', 'm', 'p', '2'], seq!['\u{26}']),
        913 => (seq!['l', 'p', 'a', 'r', '2'], seq!['\u{28}']),
        914 => (seq!['r', 'p', 'a', 'r', '2'], seq!['\u{29}']),
        915 => (seq!['a', 's', 't', '2'], seq!['\u{2A}']),
        916 => (seq!['p', 'l', 'u', 's', '2'], seq!['\u{2B}']),
        917 => (seq!['c', 'o', 'm', 'm', 'a', '2'], seq!['\u{2C}']),
        918 => (seq!['m', 'i', 'n', 'u', 's', '2'], seq!['\u{2D}']),
        919 => (seq!['p', 'e', 'r', 'i', 'o', 'd', '2'], seq!['\u{2E}']),
        920 => (seq!['s', 'o', 'l', '3'], seq!['\u{2F}']),
        921 => (seq!['c', 'o', 'l', 'o', 'n', '2'], seq!['\u{3A}']),
        922 => (seq!['s', 'e', 'm', 'i', '2'], seq!['\u{3B}']),
        923 => (seq!['l', 't', '2'], seq!['\u{3C}']),
        924 => (seq!['e', 'q', 'u', 'a', 'l', 's', '2'], seq!['\u{3D}']),
        925 => (seq!['g', 't', '2'], seq!['\u{3E}']),
        926 => (seq!['q', 'u', 'e', 's', 't', '3'], seq!['\u{3F}']),
        927 => (seq!['c', 'o', 'm', 'm', 'a', 't', '2'], seq!['\u{40}']),
        _ => (Seq::empty(), Seq::empty()),
    }
}

pub open spec fn html5_references_58(i: usize) -> (Seq<char>, Seq<char>) {
    match i {
        928 => (seq!['l', 's', 'q', 'b', '2'], seq!['\u{5B}']),
        929 => (seq!['b', 's', 'o', 'l', '2'], seq!['\u{5C}']),
        930 => (seq!['r', 's', 'q', 'b', '2'], seq!['\u{5D}']),
        931 => (seq!['h', 'a', 't'], seq!['\u{5E}']),
        932 => (seq!['l', 'o', 'w', 'b', 'a', 'r'], seq!['\u{5F}']),
        933 => (seq!['g', 'r', 'a', 'v', 'e', '2'], seq!['\u{60}']),
        934 => (seq!['l', 'c', 'u', 'b', '2'], seq!['\u{7B}']),
        935 => (seq!['v', 'e', 'r', 'b', 'a', 'r', '2'], seq!['\u{7C}']),
        936 => (seq!['r', 'c', 'u', 'b', '2'], seq!['\u{7D}']),
        937 => (seq!['t', 'i', 'l', 'd', 'e', '2'], seq!['\u{7E}']),
        938 => (seq!['Z', 'e', 'r', 'o', 'W', 'i', 'd', 't', 'h', 'S', 'p', 'a', 'c', 'e'], seq!['\u{200B}']),
        939 => (seq!['z', 'w', 's'], seq!['\u{200B}']),
        _ => (Seq::empty(), Seq::empty()),
    }
}

proof fn lemma_references_0()
    ensures
        forall|i: usize| 0 <= i < 16 ==> #[trigger] spec_entity(i) == html5_reference(i) && html5_reference(i).0.len() > 0,
{
}

proof fn lemma_references_1()
    ensures
        forall|i: usize| 16 <= i < 32 ==> #[trigger] spec_entity(i) == html5_reference(i) && html5_reference(i).0.len() > 0,
{
}

proof fn lemma_references_2()
    ensures
        forall|i: usize| 32 <= i < 48 ==> #[trigger] spec_entity(i) == html5_reference(i) && html5_reference(i).0.len() > 0,
{
}

proof fn lemma_references_3()
    ensures
        forall|i: usize| 48 <= i < 64 ==> #[trigger] spec_entity(i) == html5_reference(i) && html5_reference(i).0.len() > 0,
{
}

proof fn lemma_references_4()
    ensures
        forall|i: usize| 64 <= i < 80 ==> #[trigger] spec_entity(i) == html5_reference(i) && html5_reference(i).0.len() > 0,
{
}

proof fn lemma_references_5()
    ensures
        forall|i: usize| 80 <= i < 96 ==> #[trigger] spec_entity(i) == html5_reference(i) && html5_reference(i).0.len() > 0,
{
}

proof fn lemma_references_6()
    ensures
        forall|i: usize| 96 <= i < 112 ==> #[trigger] spec_entity(i) == html5_reference(i) && html5_reference(i).0.len() > 0,
{
}

proof fn lemma_references_7()
    ensures
        forall|i: usize| 112 <= i < 128 ==> #[trigger] spec_entity(i) == html5_reference(i) && html5_reference(i).0.len() > 0,
{
}

proof fn lemma_references_8()
    ensures
        forall|i: usize| 128 <= i < 144 ==> #[trigger] spec_entity(i) == html5_reference(i) && html5_reference(i).0.len() > 0,
{
}

proof fn lemma_references_9()
    ensures
        forall|i: usize| 144 <= i < 160 ==> #[trigger] spec_entity(i) == html5_reference(i) && html5_reference(i).0.len() > 0,
{
}

proof fn lemma_references_10()
    ensures
        forall|i: usize| 160 <= i < 176 ==> #[trigger] spec_entity(i) == html5_reference(i) && html5_reference(i).0.len() > 0,
{
}

proof fn lemma_references_11()
    ensures
        forall|i: usize| 176 <= i < 192 ==> #[trigger] spec_entity(i) == html5_reference(i) && html5_reference(i).0.len() > 0,
{
}

proof fn lemma_references_12()
    ensures
        forall|i: usize| 192 <= i < 208 ==> #[trigger] spec_entity(i) == html5_reference(i) && html5_reference(i).0.len() > 0,
{
}

proof fn lemma_references_13()
    ensures
        forall|i: usize| 208 <= i < 224 ==> #[trigger] spec_entity(i) == html5_reference(i) && html5_reference(i).0.len() > 0,
{
}

proof fn lemma_references_14()
    ensures
        forall|i: usize| 224 <= i < 240 ==> #[trigger] spec_entity(i) == html5_reference(i) && html5_reference(i).0.len() > 0,
{
}

proof fn lemma_references_15()
    ensures
        forall|i: usize| 240 <= i < 256 ==> #[trigger] spec_entity(i) == html5_reference(i) && html5_reference(i).0.len() > 0,
{
}

proof fn lemma_references_16()
    ensures
        forall|i: usize| 256 <= i < 272 ==> #[trigger] spec_entity(i) == html5_reference(i) && html5_reference(i).0.len() > 0,
{
}

proof fn lemma_references_17()
    ensures
        forall|i: usize| 272 <= i < 288 ==> #[trigger] spec_entity(i) == html5_reference(i) && html5_reference(i).0.len() > 0,
{
}

proof fn lemma_references_18()
    ensures
        forall|i: usize| 288 <= i < 304 ==> #[trigger] spec_entity(i) == html5_reference(i) && html5_reference(i).0.len() > 0,
{
}

proof fn lemma_references_19()
    ensures
        forall|i: usize| 304 <= i < 320 ==> #[trigger] spec_entity(i) == html5_reference(i) && html5_reference(i).0.len() > 0,
{
}

proof fn lemma_references_20()
    ensures
        forall|i: usize| 320 <= i < 336 ==> #[trigger] spec_entity(i) == html5_reference(i) && html5_reference(i).0.len() > 0,
{
}

proof fn lemma_references_21()
    ensures
        forall|i: usize| 336 <= i < 352 ==> #[trigger] spec_entity(i) == html5_reference(i) && html5_reference(i).0.len() > 0,
{
}

proof fn lemma_references_22()
    ensures
        forall|i: usize| 352 <= i < 368 ==> #[trigger] spec_entity(i) == html5_reference(i) && html5_reference(i).0.len() > 0,
{
}

proof fn lemma_references_23()
    ensures
        forall|i: usize| 368 <= i < 384 ==> #[trigger] spec_entity(i) == html5_reference(i) && html5_reference(i).0.len() > 0,
{
}

proof fn lemma_references_24()
    ensures
        forall|i: usize| 384 <= i < 400 ==> #[trigger] spec_entity(i) == html5_reference(i) && html5_reference(i).0.len() > 0,
{
}

proof fn lemma_references_25()
    ensures
        forall|i: usize| 400 <= i < 416 ==> #[trigger] spec_entity(i) == html5_reference(i) && html5_reference(i).0.len() > 0,
{
}

proof fn lemma_references_26()
    ensures
        forall|i: usize| 416 <= i < 432 ==> #[trigger] spec_entity(i) == html5_reference(i) && html5_reference(i).0.len() > 0,
{
}

proof fn lemma_references_27()
    ensures
        forall|i: usize| 432 <= i < 448 ==> #[trigger] spec_entity(i) == html5_reference(i) && html5_reference(i).0.len() > 0,
{
}

proof fn lemma_references_28()
    ensures
        forall|i: usize| 448 <= i < 464 ==> #[trigger] spec_entity(i) == html5_reference(i) && html5_reference(i).0.len() > 0,
{
}

proof fn lemma_references_29()
    ensures
        forall|i: usize| 464 <= i < 480 ==> #[trigger] spec_entity(i) == html5_reference(i) && html5_reference(i).0.len() > 0,
{
}

proof fn lemma_references_30()
    ensures
        forall|i: usize| 480 <= i < 496 ==> #[trigger] spec_entity(i) == html5_reference(i) && html5_reference(i).0.len() > 0,
{
}

proof fn lemma_references_31()
    ensures
        forall|i: usize| 496 <= i < 512 ==> #[trigger] spec_entity(i) == html5_reference(i) && html5_reference(i).0.len() > 0,
{
}

proof fn lemma_references_32()
    ensures
        forall|i: usize| 512 <= i < 528 ==> #[trigger] spec_entity(i) == html5_reference(i) && html5_reference(i).0.len() > 0,
{
}

proof fn lemma_references_33()
    ensures
        forall|i: usize| 528 <= i < 544 ==> #[trigger] spec_entity(i) == html5_reference(i) && html5_reference(i).0.len() > 0,
{
}

proof fn lemma_references_34()
    ensures
        forall|i: usize| 544 <= i < 560 ==> #[trigger] spec_entity(i) == html5_reference(i) && html5_reference(i).0.len() > 0,
{
}

proof fn lemma_references_35()
    ensures
        forall|i: usize| 560 <= i < 576 ==> #[trigger] spec_entity(i) == html5_reference(i) && html5_reference(i).0.len() > 0,
{
}

proof fn lemma_references_36()
    ensures
        forall|i: usize| 576 <= i < 592 ==> #[trigger] spec_entity(i) == html5_reference(i) && html5_reference(i).0.len() > 0,
{
}

proof fn lemma_references_37()
    ensures
        forall|i: usize| 592 <= i < 608 ==> #[trigger] spec_entity(i) == html5_reference(i) && html5_reference(i).0.len() > 0,
{
}

proof fn lemma_references_38()
    ensures
        forall|i: usize| 608 <= i < 624 ==> #[trigger] spec_entity(i) == html5_reference(i) && html5_reference(i).0.len() > 0,
{
}

proof fn lemma_references_39()
    ensures
        forall|i: usize| 624 <= i < 640 ==> #[trigger] spec_entity(i) == html5_reference(i) && html5_reference(i).0.len() > 0,
{
}

proof fn lemma_references_40()
    ensures
        forall|i: usize| 640 <= i < 656 ==> #[trigger] spec_entity(i) == html5_reference(i) && html5_reference(i).0.len() > 0,
{
}

proof fn lemma_references_41()
    ensures
        forall|i: usize| 656 <= i < 672 ==> #[trigger] spec_entity(i) == html5_reference(i) && html5_reference(i).0.len() > 0,
{
}

proof fn lemma_references_42()
    ensures
        forall|i: usize| 672 <= i < 688 ==> #[trigger] spec_entity(i) == html5_reference(i) && html5_reference(i).0.len() > 0,
{
}

proof fn lemma_references_43()
    ensures
        forall|i: usize| 688 <= i < 704 ==> #[trigger] spec_entity(i) == html5_reference(i) && html5_reference(i).0.len() > 0,
{
}

proof fn lemma_references_44()
    ensures
        forall|i: usize| 704 <= i < 720 ==> #[trigger] spec_entity(i) == html5_reference(i) && html5_reference(i).0.len() > 0,
{
}

proof fn lemma_references_45()
    ensures
        forall|i: usize| 720 <= i < 736 ==> #[trigger] spec_entity(i) == html5_reference(i) && html5_reference(i).0.len() > 0,
{
}

proof fn lemma_references_46()
    ensures
        forall|i: usize| 736 <= i < 752 ==> #[trigger] spec_entity(i) == html5_reference(i) && html5_reference(i).0.len() > 0,
{
}

proof fn lemma_references_47()
    ensures
        forall|i: usize| 752 <= i < 768 ==> #[trigger] spec_entity(i) == html5_reference(i) && html5_reference(i).0.len() > 0,
{
}

proof fn lemma_references_48()
    ensures
        forall|i: usize| 768 <= i < 784 ==> #[trigger] spec_entity(i) == html5_reference(i) && html5_reference(i).0.len() > 0,
{
}

proof fn lemma_references_49()
    ensures
        forall|i: usize| 784 <= i < 800 ==> #[trigger] spec_entity(i) == html5_reference(i) && html5_reference(i).0.len() > 0,
{
}

proof fn lemma_references_50()
    ensures
        forall|i: usize| 800 <= i < 816 ==> #[trigger] spec_entity(i) == html5_reference(i) && html5_reference(i).0.len() > 0,
{
}

proof fn lemma_references_51()
    ensures
        forall|i: usize| 816 <= i < 832 ==> #[trigger] spec_entity(i) == html5_reference(i) && html5_reference(i).0.len() > 0,
{
}

proof fn lemma_references_52()
    ensures
        forall|i: usize| 832 <= i < 848 ==> #[trigger] spec_entity(i) == html5_reference(i) && html5_reference(i).0.len() > 0,
{
}

proof fn lemma_references_53()
    ensures
        forall|i: usize| 848 <= i < 864 ==> #[trigger] spec_entity(i) == html5_reference(i) && html5_reference(i).0.len() > 0,
{
}

proof fn lemma_references_54()
    ensures
        forall|i: usize| 864 <= i < 880 ==> #[trigger] spec_entity(i) == html5_reference(i) && html5_reference(i).0.len() > 0,
{
}

proof fn lemma_references_55()
    ensures
        forall|i: usize| 880 <= i < 896 ==> #[trigger] spec_entity(i) == html5_reference(i) && html5_reference(i).0.len() > 0,
{
}

proof fn lemma_references_56()
    ensures
        forall|i: usize| 896 <= i < 912 ==> #[trigger] spec_entity(i) == html5_reference(i) && html5_reference(i).0.len() > 0,
{
}

proof fn lemma_references_57()
    ensures
        forall|i: usize| 912 <= i < 928 ==> #[trigger] spec_entity(i) == html5_reference(i) && html5_reference(i).0.len() > 0,
{
}

proof fn lemma_references_58()
    ensures
        forall|i: usize| 928 <= i < 940 ==> #[trigger] spec_entity(i) == html5_reference(i) && html5_reference(i).0.len() > 0,
{
}

/// The lookup table holds exactly the HTML5 named references: entry `i`
/// has the name and replacement text of reference `i` of the list, for
/// every entry.
pub proof fn law_entity_table_is_html5(i: usize)
    requires
        i < crate::entities::ENTITY_COUNT,
    ensures
        spec_entity(i) == html5_reference(i),
        html5_reference(i).0.len() > 0,
{
    if i < 16 {
        lemma_references_0();
    } else if i < 32 {
        lemma_references_1();
    } else if i < 48 {
        lemma_references_2();
    } else if i < 64 {
        lemma_references_3();
    } else if i < 80 {
        lemma_references_4();
    } else if i < 96 {
        lemma_references_5();
    } else if i < 112 {
        lemma_references_6();
    } else if i < 128 {
        lemma_references_7();
    } else if i < 144 {
        lemma_references_8();
    } else if i < 160 {
        lemma_references_9();
    } else if i < 176 {
        lemma_references_10();
    } else if i < 192 {
        lemma_references_11();
    } else if i < 208 {
        lemma_references_12();
    } else if i < 224 {
        lemma_references_13();
    } else if i < 240 {
        lemma_references_14();
    } else if i < 256 {
        lemma_references_15();
    } else if i < 272 {
        lemma_references_16();
    } else if i < 288 {
        lemma_references_17();
    } else if i < 304 {
        lemma_references_18();
    } else if i < 320 {
        lemma_references_19();
    } else if i < 336 {
        lemma_references_20();
    } else if i < 352 {
        lemma_references_21();
    } else if i < 368 {
        lemma_references_22();
    } else if i < 384 {
        lemma_references_23();
    } else if i < 400 {
        lemma_references_24();
    } else if i < 416 {
        lemma_references_25();
    } else if i < 432 {
        lemma_references_26();
    } else if i < 448 {
        lemma_references_27();
    } else if i < 464 {
        lemma_references_28();
    } else if i < 480 {
        lemma_references_29();
    } else if i < 496 {
        lemma_references_30();
    } else if i < 512 {
        lemma_references_31();
    } else if i < 528 {
        lemma_references_32();
    } else if i < 544 {
        lemma_references_33();
    } else if i < 560 {
        lemma_references_34();
    } else if i < 576 {
        lemma_references_35();
    } else if i < 592 {
        lemma_references_36();
    } else if i < 608 {
        lemma_references_37();
    } else if i < 624 {
        lemma_references_38();
    } else if i < 640 {
        lemma_references_39();
    } else if i < 656 {
        lemma_references_40();
    } else if i < 672 {
        lemma_references_41();
    } else if i < 688 {
        lemma_references_42();
    } else if i < 704 {
        lemma_references_43();
    } else if i < 720 {
        lemma_references_44();
    } else if i < 736 {
        lemma_references_45();
    } else if i < 752 {
        lemma_references_46();
    } else if i < 768 {
        lemma_references_47();
    } else if i < 784 {
        lemma_references_48();
    } else if i < 800 {
        lemma_references_49();
    } else if i < 816 {
        lemma_references_50();
    } else if i < 832 {
        lemma_references_51();
    } else if i < 848 {
        lemma_references_52();
    } else if i < 864 {
        lemma_references_53();
    } else if i < 880 {
        lemma_references_54();
    } else if i < 896 {
        lemma_references_55();
    } else if i < 912 {
        lemma_references_56();
    } else if i < 928 {
        lemma_references_57();
    } else if i < 944 {
        lemma_references_58();
    }
}

proof fn lemma_lookup_reaches(name: Seq<char>, i: usize, j: nat)
    requires
        j <= i < crate::entities::ENTITY_COUNT,
        html5_reference(i).0 == name,
        forall|k: usize| k < i ==> #[trigger] html5_reference(k).0 != name,
    ensures
        crate::html_escape::lookup_from(name, j) == Some(html5_reference(i).1),
    decreases i - j,
{
    law_entity_table_is_html5(j as usize);
    if j < i {
        lemma_lookup_reaches(name, i, j + 1);
    }
}

/// Each named reference decodes to its replacement text: `&name;` for the
/// first reference of the list with that name gives that reference's
/// replacement.
pub proof fn law_named_reference_decodes(i: usize)
    requires
        i < crate::entities::ENTITY_COUNT,
        forall|k: usize| k < i ==> #[trigger] html5_reference(k).0 != html5_reference(i).0,
    ensures
        crate::html_escape::spec_decode_entity(seq!['&'] + html5_reference(i).0 + seq![';']) == Some(
            html5_reference(i).1,
        ),
{
    let name = html5_reference(i).0;
    law_entity_table_is_html5(i);
    let t = seq!['&'] + name + seq![';'];
    assert(t.subrange(1, t.len() - 1) =~= name);
    lemma_lookup_reaches(name, i, 0);
}


} // verus!
