//! The HTML5 named character references (`&name;` bodies and their
//! replacement text), in lookup order.

use vstd::prelude::*;

verus! {

/// Number of named references in the table.
pub const ENTITY_COUNT: usize = 940;

/// Entry `i` of the table: (name, replacement).
pub open spec fn spec_entity(i: usize) -> (Seq<char>, Seq<char>) {
    if i < 16 {
        spec_entity_block_0(i)
    } else if i < 32 {
        spec_entity_block_1(i)
    } else if i < 48 {
        spec_entity_block_2(i)
    } else if i < 64 {
        spec_entity_block_3(i)
    } else if i < 80 {
        spec_entity_block_4(i)
    } else if i < 96 {
        spec_entity_block_5(i)
    } else if i < 112 {
        spec_entity_block_6(i)
    } else if i < 128 {
        spec_entity_block_7(i)
    } else if i < 144 {
        spec_entity_block_8(i)
    } else if i < 160 {
        spec_entity_block_9(i)
    } else if i < 176 {
        spec_entity_block_10(i)
    } else if i < 192 {
        spec_entity_block_11(i)
    } else if i < 208 {
        spec_entity_block_12(i)
    } else if i < 224 {
        spec_entity_block_13(i)
    } else if i < 240 {
        spec_entity_block_14(i)
    } else if i < 256 {
        spec_entity_block_15(i)
    } else if i < 272 {
        spec_entity_block_16(i)
    } else if i < 288 {
        spec_entity_block_17(i)
    } else if i < 304 {
        spec_entity_block_18(i)
    } else if i < 320 {
        spec_entity_block_19(i)
    } else if i < 336 {
        spec_entity_block_20(i)
    } else if i < 352 {
        spec_entity_block_21(i)
    } else if i < 368 {
        spec_entity_block_22(i)
    } else if i < 384 {
        spec_entity_block_23(i)
    } else if i < 400 {
        spec_entity_block_24(i)
    } else if i < 416 {
        spec_entity_block_25(i)
    } else if i < 432 {
        spec_entity_block_26(i)
    } else if i < 448 {
        spec_entity_block_27(i)
    } else if i < 464 {
        spec_entity_block_28(i)
    } else if i < 480 {
        spec_entity_block_29(i)
    } else if i < 496 {
        spec_entity_block_30(i)
    } else if i < 512 {
        spec_entity_block_31(i)
    } else if i < 528 {
        spec_entity_block_32(i)
    } else if i < 544 {
        spec_entity_block_33(i)
    } else if i < 560 {
        spec_entity_block_34(i)
    } else if i < 576 {
        spec_entity_block_35(i)
    } else if i < 592 {
        spec_entity_block_36(i)
    } else if i < 608 {
        spec_entity_block_37(i)
    } else if i < 624 {
        spec_entity_block_38(i)
    } else if i < 640 {
        spec_entity_block_39(i)
    } else if i < 656 {
        spec_entity_block_40(i)
    } else if i < 672 {
        spec_entity_block_41(i)
    } else if i < 688 {
        spec_entity_block_42(i)
    } else if i < 704 {
        spec_entity_block_43(i)
    } else if i < 720 {
        spec_entity_block_44(i)
    } else if i < 736 {
        spec_entity_block_45(i)
    } else if i < 752 {
        spec_entity_block_46(i)
    } else if i < 768 {
        spec_entity_block_47(i)
    } else if i < 784 {
        spec_entity_block_48(i)
    } else if i < 800 {
        spec_entity_block_49(i)
    } else if i < 816 {
        spec_entity_block_50(i)
    } else if i < 832 {
        spec_entity_block_51(i)
    } else if i < 848 {
        spec_entity_block_52(i)
    } else if i < 864 {
        spec_entity_block_53(i)
    } else if i < 880 {
        spec_entity_block_54(i)
    } else if i < 896 {
        spec_entity_block_55(i)
    } else if i < 912 {
        spec_entity_block_56(i)
    } else if i < 928 {
        spec_entity_block_57(i)
    } else if i < 944 {
        spec_entity_block_58(i)
    } else {
        (Seq::empty(), Seq::empty())
    }
}

/// Entry `i` of the table: the name, and the replacement's one or two
/// characters.
pub fn entity_at(i: usize) -> (r: (&'static [char], char, Option<char>))
    requires
        i < ENTITY_COUNT,
    ensures
        r.0@ == spec_entity(i).0,
        spec_entity(i).1 == (match r.2 {
            Some(c2) => seq![r.1, c2],
            None => seq![r.1],
        }),
{
    if i < 16 {
        entity_block_0(i)
    } else if i < 32 {
        entity_block_1(i)
    } else if i < 48 {
        entity_block_2(i)
    } else if i < 64 {
        entity_block_3(i)
    } else if i < 80 {
        entity_block_4(i)
    } else if i < 96 {
        entity_block_5(i)
    } else if i < 112 {
        entity_block_6(i)
    } else if i < 128 {
        entity_block_7(i)
    } else if i < 144 {
        entity_block_8(i)
    } else if i < 160 {
        entity_block_9(i)
    } else if i < 176 {
        entity_block_10(i)
    } else if i < 192 {
        entity_block_11(i)
    } else if i < 208 {
        entity_block_12(i)
    } else if i < 224 {
        entity_block_13(i)
    } else if i < 240 {
        entity_block_14(i)
    } else if i < 256 {
        entity_block_15(i)
    } else if i < 272 {
        entity_block_16(i)
    } else if i < 288 {
        entity_block_17(i)
    } else if i < 304 {
        entity_block_18(i)
    } else if i < 320 {
        entity_block_19(i)
    } else if i < 336 {
        entity_block_20(i)
    } else if i < 352 {
        entity_block_21(i)
    } else if i < 368 {
        entity_block_22(i)
    } else if i < 384 {
        entity_block_23(i)
    } else if i < 400 {
        entity_block_24(i)
    } else if i < 416 {
        entity_block_25(i)
    } else if i < 432 {
        entity_block_26(i)
    } else if i < 448 {
        entity_block_27(i)
    } else if i < 464 {
        entity_block_28(i)
    } else if i < 480 {
        entity_block_29(i)
    } else if i < 496 {
        entity_block_30(i)
    } else if i < 512 {
        entity_block_31(i)
    } else if i < 528 {
        entity_block_32(i)
    } else if i < 544 {
        entity_block_33(i)
    } else if i < 560 {
        entity_block_34(i)
    } else if i < 576 {
        entity_block_35(i)
    } else if i < 592 {
        entity_block_36(i)
    } else if i < 608 {
        entity_block_37(i)
    } else if i < 624 {
        entity_block_38(i)
    } else if i < 640 {
        entity_block_39(i)
    } else if i < 656 {
        entity_block_40(i)
    } else if i < 672 {
        entity_block_41(i)
    } else if i < 688 {
        entity_block_42(i)
    } else if i < 704 {
        entity_block_43(i)
    } else if i < 720 {
        entity_block_44(i)
    } else if i < 736 {
        entity_block_45(i)
    } else if i < 752 {
        entity_block_46(i)
    } else if i < 768 {
        entity_block_47(i)
    } else if i < 784 {
        entity_block_48(i)
    } else if i < 800 {
        entity_block_49(i)
    } else if i < 816 {
        entity_block_50(i)
    } else if i < 832 {
        entity_block_51(i)
    } else if i < 848 {
        entity_block_52(i)
    } else if i < 864 {
        entity_block_53(i)
    } else if i < 880 {
        entity_block_54(i)
    } else if i < 896 {
        entity_block_55(i)
    } else if i < 912 {
        entity_block_56(i)
    } else if i < 928 {
        entity_block_57(i)
    } else if i < 944 {
        entity_block_58(i)
    } else {
        (&[], ' ', None)
    }
}

pub open spec fn spec_entity_block_0(i: usize) -> (Seq<char>, Seq<char>) {
    match i {
        0 => (seq!['\u{41}', '\u{4D}', '\u{50}'], seq!['\u{26}']),
        1 => (seq!['\u{61}', '\u{6D}', '\u{70}'], seq!['\u{26}']),
        2 => (seq!['\u{4C}', '\u{54}'], seq!['\u{3C}']),
        3 => (seq!['\u{6C}', '\u{74}'], seq!['\u{3C}']),
        4 => (seq!['\u{47}', '\u{54}'], seq!['\u{3E}']),
        5 => (seq!['\u{67}', '\u{74}'], seq!['\u{3E}']),
        6 => (seq!['\u{51}', '\u{55}', '\u{4F}', '\u{54}'], seq!['\u{22}']),
        7 => (seq!['\u{71}', '\u{75}', '\u{6F}', '\u{74}'], seq!['\u{22}']),
        8 => (seq!['\u{61}', '\u{70}', '\u{6F}', '\u{73}'], seq!['\u{27}']),
        9 => (seq!['\u{6E}', '\u{62}', '\u{73}', '\u{70}'], seq!['\u{A0}']),
        10 => (seq!['\u{69}', '\u{65}', '\u{78}', '\u{63}', '\u{6C}'], seq!['\u{A1}']),
        11 => (seq!['\u{63}', '\u{65}', '\u{6E}', '\u{74}'], seq!['\u{A2}']),
        12 => (seq!['\u{70}', '\u{6F}', '\u{75}', '\u{6E}', '\u{64}'], seq!['\u{A3}']),
        13 => (seq!['\u{63}', '\u{75}', '\u{72}', '\u{72}', '\u{65}', '\u{6E}'], seq!['\u{A4}']),
        14 => (seq!['\u{79}', '\u{65}', '\u{6E}'], seq!['\u{A5}']),
        15 => (seq!['\u{62}', '\u{72}', '\u{76}', '\u{62}', '\u{61}', '\u{72}'], seq!['\u{A6}']),
        _ => (Seq::empty(), Seq::empty()),
    }
}

fn entity_block_0(i: usize) -> (r: (&'static [char], char, Option<char>))
    ensures
        r.0@ == spec_entity_block_0(i).0,
        spec_entity_block_0(i).1 == (match r.2 {
            Some(c2) => seq![r.1, c2],
            None => seq![r.1],
        }) || spec_entity_block_0(i).1.len() == 0,
{
    match i {
        0 => (&['\u{41}', '\u{4D}', '\u{50}'], '\u{26}', None),
        1 => (&['\u{61}', '\u{6D}', '\u{70}'], '\u{26}', None),
        2 => (&['\u{4C}', '\u{54}'], '\u{3C}', None),
        3 => (&['\u{6C}', '\u{74}'], '\u{3C}', None),
        4 => (&['\u{47}', '\u{54}'], '\u{3E}', None),
        5 => (&['\u{67}', '\u{74}'], '\u{3E}', None),
        6 => (&['\u{51}', '\u{55}', '\u{4F}', '\u{54}'], '\u{22}', None),
        7 => (&['\u{71}', '\u{75}', '\u{6F}', '\u{74}'], '\u{22}', None),
        8 => (&['\u{61}', '\u{70}', '\u{6F}', '\u{73}'], '\u{27}', None),
        9 => (&['\u{6E}', '\u{62}', '\u{73}', '\u{70}'], '\u{A0}', None),
        10 => (&['\u{69}', '\u{65}', '\u{78}', '\u{63}', '\u{6C}'], '\u{A1}', None),
        11 => (&['\u{63}', '\u{65}', '\u{6E}', '\u{74}'], '\u{A2}', None),
        12 => (&['\u{70}', '\u{6F}', '\u{75}', '\u{6E}', '\u{64}'], '\u{A3}', None),
        13 => (&['\u{63}', '\u{75}', '\u{72}', '\u{72}', '\u{65}', '\u{6E}'], '\u{A4}', None),
        14 => (&['\u{79}', '\u{65}', '\u{6E}'], '\u{A5}', None),
        15 => (&['\u{62}', '\u{72}', '\u{76}', '\u{62}', '\u{61}', '\u{72}'], '\u{A6}', None),
        _ => (&[], ' ', None),
    }
}

pub open spec fn spec_entity_block_1(i: usize) -> (Seq<char>, Seq<char>) {
    match i {
        16 => (seq!['\u{73}', '\u{65}', '\u{63}', '\u{74}'], seq!['\u{A7}']),
        17 => (seq!['\u{75}', '\u{6D}', '\u{6C}'], seq!['\u{A8}']),
        18 => (seq!['\u{63}', '\u{6F}', '\u{70}', '\u{79}'], seq!['\u{A9}']),
        19 => (seq!['\u{6F}', '\u{72}', '\u{64}', '\u{66}'], seq!['\u{AA}']),
        20 => (seq!['\u{6C}', '\u{61}', '\u{71}', '\u{75}', '\u{6F}'], seq!['\u{AB}']),
        21 => (seq!['\u{6E}', '\u{6F}', '\u{74}'], seq!['\u{AC}']),
        22 => (seq!['\u{73}', '\u{68}', '\u{79}'], seq!['\u{AD}']),
        23 => (seq!['\u{72}', '\u{65}', '\u{67}'], seq!['\u{AE}']),
        24 => (seq!['\u{6D}', '\u{61}', '\u{63}', '\u{72}'], seq!['\u{AF}']),
        25 => (seq!['\u{64}', '\u{65}', '\u{67}'], seq!['\u{B0}']),
        26 => (seq!['\u{70}', '\u{6C}', '\u{75}', '\u{73}', '\u{6D}', '\u{6E}'], seq!['\u{B1}']),
        27 => (seq!['\u{73}', '\u{75}', '\u{70}', '\u{32}'], seq!['\u{B2}']),
        28 => (seq!['\u{73}', '\u{75}', '\u{70}', '\u{33}'], seq!['\u{B3}']),
        29 => (seq!['\u{61}', '\u{63}', '\u{75}', '\u{74}', '\u{65}'], seq!['\u{B4}']),
        30 => (seq!['\u{6D}', '\u{69}', '\u{63}', '\u{72}', '\u{6F}'], seq!['\u{B5}']),
        31 => (seq!['\u{70}', '\u{61}', '\u{72}', '\u{61}'], seq!['\u{B6}']),
        _ => (Seq::empty(), Seq::empty()),
    }
}

fn entity_block_1(i: usize) -> (r: (&'static [char], char, Option<char>))
    ensures
        r.0@ == spec_entity_block_1(i).0,
        spec_entity_block_1(i).1 == (match r.2 {
            Some(c2) => seq![r.1, c2],
            None => seq![r.1],
        }) || spec_entity_block_1(i).1.len() == 0,
{
    match i {
        16 => (&['\u{73}', '\u{65}', '\u{63}', '\u{74}'], '\u{A7}', None),
        17 => (&['\u{75}', '\u{6D}', '\u{6C}'], '\u{A8}', None),
        18 => (&['\u{63}', '\u{6F}', '\u{70}', '\u{79}'], '\u{A9}', None),
        19 => (&['\u{6F}', '\u{72}', '\u{64}', '\u{66}'], '\u{AA}', None),
        20 => (&['\u{6C}', '\u{61}', '\u{71}', '\u{75}', '\u{6F}'], '\u{AB}', None),
        21 => (&['\u{6E}', '\u{6F}', '\u{74}'], '\u{AC}', None),
        22 => (&['\u{73}', '\u{68}', '\u{79}'], '\u{AD}', None),
        23 => (&['\u{72}', '\u{65}', '\u{67}'], '\u{AE}', None),
        24 => (&['\u{6D}', '\u{61}', '\u{63}', '\u{72}'], '\u{AF}', None),
        25 => (&['\u{64}', '\u{65}', '\u{67}'], '\u{B0}', None),
        26 => (&['\u{70}', '\u{6C}', '\u{75}', '\u{73}', '\u{6D}', '\u{6E}'], '\u{B1}', None),
        27 => (&['\u{73}', '\u{75}', '\u{70}', '\u{32}'], '\u{B2}', None),
        28 => (&['\u{73}', '\u{75}', '\u{70}', '\u{33}'], '\u{B3}', None),
        29 => (&['\u{61}', '\u{63}', '\u{75}', '\u{74}', '\u{65}'], '\u{B4}', None),
        30 => (&['\u{6D}', '\u{69}', '\u{63}', '\u{72}', '\u{6F}'], '\u{B5}', None),
        31 => (&['\u{70}', '\u{61}', '\u{72}', '\u{61}'], '\u{B6}', None),
        _ => (&[], ' ', None),
    }
}

pub open spec fn spec_entity_block_2(i: usize) -> (Seq<char>, Seq<char>) {
    match i {
        32 => (seq!['\u{6D}', '\u{69}', '\u{64}', '\u{64}', '\u{6F}', '\u{74}'], seq!['\u{B7}']),
        33 => (seq!['\u{63}', '\u{65}', '\u{64}', '\u{69}', '\u{6C}'], seq!['\u{B8}']),
        34 => (seq!['\u{73}', '\u{75}', '\u{70}', '\u{31}'], seq!['\u{B9}']),
        35 => (seq!['\u{6F}', '\u{72}', '\u{64}', '\u{6D}'], seq!['\u{BA}']),
        36 => (seq!['\u{72}', '\u{61}', '\u{71}', '\u{75}', '\u{6F}'], seq!['\u{BB}']),
        37 => (seq!['\u{66}', '\u{72}', '\u{61}', '\u{63}', '\u{31}', '\u{34}'], seq!['\u{BC}']),
        38 => (seq!['\u{66}', '\u{72}', '\u{61}', '\u{63}', '\u{31}', '\u{32}'], seq!['\u{BD}']),
        39 => (seq!['\u{66}', '\u{72}', '\u{61}', '\u{63}', '\u{33}', '\u{34}'], seq!['\u{BE}']),
        40 => (seq!['\u{69}', '\u{71}', '\u{75}', '\u{65}', '\u{73}', '\u{74}'], seq!['\u{BF}']),
        41 => (seq!['\u{41}', '\u{67}', '\u{72}', '\u{61}', '\u{76}', '\u{65}'], seq!['\u{C0}']),
        42 => (seq!['\u{41}', '\u{61}', '\u{63}', '\u{75}', '\u{74}', '\u{65}'], seq!['\u{C1}']),
        43 => (seq!['\u{41}', '\u{63}', '\u{69}', '\u{72}', '\u{63}'], seq!['\u{C2}']),
        44 => (seq!['\u{41}', '\u{74}', '\u{69}', '\u{6C}', '\u{64}', '\u{65}'], seq!['\u{C3}']),
        45 => (seq!['\u{41}', '\u{75}', '\u{6D}', '\u{6C}'], seq!['\u{C4}']),
        46 => (seq!['\u{41}', '\u{72}', '\u{69}', '\u{6E}', '\u{67}'], seq!['\u{C5}']),
        47 => (seq!['\u{41}', '\u{45}', '\u{6C}', '\u{69}', '\u{67}'], seq!['\u{C6}']),
        _ => (Seq::empty(), Seq::empty()),
    }
}

fn entity_block_2(i: usize) -> (r: (&'static [char], char, Option<char>))
    ensures
        r.0@ == spec_entity_block_2(i).0,
        spec_entity_block_2(i).1 == (match r.2 {
            Some(c2) => seq![r.1, c2],
            None => seq![r.1],
        }) || spec_entity_block_2(i).1.len() == 0,
{
    match i {
        32 => (&['\u{6D}', '\u{69}', '\u{64}', '\u{64}', '\u{6F}', '\u{74}'], '\u{B7}', None),
        33 => (&['\u{63}', '\u{65}', '\u{64}', '\u{69}', '\u{6C}'], '\u{B8}', None),
        34 => (&['\u{73}', '\u{75}', '\u{70}', '\u{31}'], '\u{B9}', None),
        35 => (&['\u{6F}', '\u{72}', '\u{64}', '\u{6D}'], '\u{BA}', None),
        36 => (&['\u{72}', '\u{61}', '\u{71}', '\u{75}', '\u{6F}'], '\u{BB}', None),
        37 => (&['\u{66}', '\u{72}', '\u{61}', '\u{63}', '\u{31}', '\u{34}'], '\u{BC}', None),
        38 => (&['\u{66}', '\u{72}', '\u{61}', '\u{63}', '\u{31}', '\u{32}'], '\u{BD}', None),
        39 => (&['\u{66}', '\u{72}', '\u{61}', '\u{63}', '\u{33}', '\u{34}'], '\u{BE}', None),
        40 => (&['\u{69}', '\u{71}', '\u{75}', '\u{65}', '\u{73}', '\u{74}'], '\u{BF}', None),
        41 => (&['\u{41}', '\u{67}', '\u{72}', '\u{61}', '\u{76}', '\u{65}'], '\u{C0}', None),
        42 => (&['\u{41}', '\u{61}', '\u{63}', '\u{75}', '\u{74}', '\u{65}'], '\u{C1}', None),
        43 => (&['\u{41}', '\u{63}', '\u{69}', '\u{72}', '\u{63}'], '\u{C2}', None),
        44 => (&['\u{41}', '\u{74}', '\u{69}', '\u{6C}', '\u{64}', '\u{65}'], '\u{C3}', None),
        45 => (&['\u{41}', '\u{75}', '\u{6D}', '\u{6C}'], '\u{C4}', None),
        46 => (&['\u{41}', '\u{72}', '\u{69}', '\u{6E}', '\u{67}'], '\u{C5}', None),
        47 => (&['\u{41}', '\u{45}', '\u{6C}', '\u{69}', '\u{67}'], '\u{C6}', None),
        _ => (&[], ' ', None),
    }
}

pub open spec fn spec_entity_block_3(i: usize) -> (Seq<char>, Seq<char>) {
    match i {
        48 => (seq!['\u{43}', '\u{63}', '\u{65}', '\u{64}', '\u{69}', '\u{6C}'], seq!['\u{C7}']),
        49 => (seq!['\u{45}', '\u{67}', '\u{72}', '\u{61}', '\u{76}', '\u{65}'], seq!['\u{C8}']),
        50 => (seq!['\u{45}', '\u{61}', '\u{63}', '\u{75}', '\u{74}', '\u{65}'], seq!['\u{C9}']),
        51 => (seq!['\u{45}', '\u{63}', '\u{69}', '\u{72}', '\u{63}'], seq!['\u{CA}']),
        52 => (seq!['\u{45}', '\u{75}', '\u{6D}', '\u{6C}'], seq!['\u{CB}']),
        53 => (seq!['\u{49}', '\u{67}', '\u{72}', '\u{61}', '\u{76}', '\u{65}'], seq!['\u{CC}']),
        54 => (seq!['\u{49}', '\u{61}', '\u{63}', '\u{75}', '\u{74}', '\u{65}'], seq!['\u{CD}']),
        55 => (seq!['\u{49}', '\u{63}', '\u{69}', '\u{72}', '\u{63}'], seq!['\u{CE}']),
        56 => (seq!['\u{49}', '\u{75}', '\u{6D}', '\u{6C}'], seq!['\u{CF}']),
        57 => (seq!['\u{45}', '\u{54}', '\u{48}'], seq!['\u{D0}']),
        58 => (seq!['\u{4E}', '\u{74}', '\u{69}', '\u{6C}', '\u{64}', '\u{65}'], seq!['\u{D1}']),
        59 => (seq!['\u{4F}', '\u{67}', '\u{72}', '\u{61}', '\u{76}', '\u{65}'], seq!['\u{D2}']),
        60 => (seq!['\u{4F}', '\u{61}', '\u{63}', '\u{75}', '\u{74}', '\u{65}'], seq!['\u{D3}']),
        61 => (seq!['\u{4F}', '\u{63}', '\u{69}', '\u{72}', '\u{63}'], seq!['\u{D4}']),
        62 => (seq!['\u{4F}', '\u{74}', '\u{69}', '\u{6C}', '\u{64}', '\u{65}'], seq!['\u{D5}']),
        63 => (seq!['\u{4F}', '\u{75}', '\u{6D}', '\u{6C}'], seq!['\u{D6}']),
        _ => (Seq::empty(), Seq::empty()),
    }
}

fn entity_block_3(i: usize) -> (r: (&'static [char], char, Option<char>))
    ensures
        r.0@ == spec_entity_block_3(i).0,
        spec_entity_block_3(i).1 == (match r.2 {
            Some(c2) => seq![r.1, c2],
            None => seq![r.1],
        }) || spec_entity_block_3(i).1.len() == 0,
{
    match i {
        48 => (&['\u{43}', '\u{63}', '\u{65}', '\u{64}', '\u{69}', '\u{6C}'], '\u{C7}', None),
        49 => (&['\u{45}', '\u{67}', '\u{72}', '\u{61}', '\u{76}', '\u{65}'], '\u{C8}', None),
        50 => (&['\u{45}', '\u{61}', '\u{63}', '\u{75}', '\u{74}', '\u{65}'], '\u{C9}', None),
        51 => (&['\u{45}', '\u{63}', '\u{69}', '\u{72}', '\u{63}'], '\u{CA}', None),
        52 => (&['\u{45}', '\u{75}', '\u{6D}', '\u{6C}'], '\u{CB}', None),
        53 => (&['\u{49}', '\u{67}', '\u{72}', '\u{61}', '\u{76}', '\u{65}'], '\u{CC}', None),
        54 => (&['\u{49}', '\u{61}', '\u{63}', '\u{75}', '\u{74}', '\u{65}'], '\u{CD}', None),
        55 => (&['\u{49}', '\u{63}', '\u{69}', '\u{72}', '\u{63}'], '\u{CE}', None),
        56 => (&['\u{49}', '\u{75}', '\u{6D}', '\u{6C}'], '\u{CF}', None),
        57 => (&['\u{45}', '\u{54}', '\u{48}'], '\u{D0}', None),
        58 => (&['\u{4E}', '\u{74}', '\u{69}', '\u{6C}', '\u{64}', '\u{65}'], '\u{D1}', None),
        59 => (&['\u{4F}', '\u{67}', '\u{72}', '\u{61}', '\u{76}', '\u{65}'], '\u{D2}', None),
        60 => (&['\u{4F}', '\u{61}', '\u{63}', '\u{75}', '\u{74}', '\u{65}'], '\u{D3}', None),
        61 => (&['\u{4F}', '\u{63}', '\u{69}', '\u{72}', '\u{63}'], '\u{D4}', None),
        62 => (&['\u{4F}', '\u{74}', '\u{69}', '\u{6C}', '\u{64}', '\u{65}'], '\u{D5}', None),
        63 => (&['\u{4F}', '\u{75}', '\u{6D}', '\u{6C}'], '\u{D6}', None),
        _ => (&[], ' ', None),
    }
}

pub open spec fn spec_entity_block_4(i: usize) -> (Seq<char>, Seq<char>) {
    match i {
        64 => (seq!['\u{74}', '\u{69}', '\u{6D}', '\u{65}', '\u{73}'], seq!['\u{D7}']),
        65 => (seq!['\u{4F}', '\u{73}', '\u{6C}', '\u{61}', '\u{73}', '\u{68}'], seq!['\u{D8}']),
        66 => (seq!['\u{55}', '\u{67}', '\u{72}', '\u{61}', '\u{76}', '\u{65}'], seq!['\u{D9}']),
        67 => (seq!['\u{55}', '\u{61}', '\u{63}', '\u{75}', '\u{74}', '\u{65}'], seq!['\u{DA}']),
        68 => (seq!['\u{55}', '\u{63}', '\u{69}', '\u{72}', '\u{63}'], seq!['\u{DB}']),
        69 => (seq!['\u{55}', '\u{75}', '\u{6D}', '\u{6C}'], seq!['\u{DC}']),
        70 => (seq!['\u{59}', '\u{61}', '\u{63}', '\u{75}', '\u{74}', '\u{65}'], seq!['\u{DD}']),
        71 => (seq!['\u{54}', '\u{48}', '\u{4F}', '\u{52}', '\u{4E}'], seq!['\u{DE}']),
        72 => (seq!['\u{73}', '\u{7A}', '\u{6C}', '\u{69}', '\u{67}'], seq!['\u{DF}']),
        73 => (seq!['\u{61}', '\u{67}', '\u{72}', '\u{61}', '\u{76}', '\u{65}'], seq!['\u{E0}']),
        74 => (seq!['\u{61}', '\u{61}', '\u{63}', '\u{75}', '\u{74}', '\u{65}'], seq!['\u{E1}']),
        75 => (seq!['\u{61}', '\u{63}', '\u{69}', '\u{72}', '\u{63}'], seq!['\u{E2}']),
        76 => (seq!['\u{61}', '\u{74}', '\u{69}', '\u{6C}', '\u{64}', '\u{65}'], seq!['\u{E3}']),
        77 => (seq!['\u{61}', '\u{75}', '\u{6D}', '\u{6C}'], seq!['\u{E4}']),
        78 => (seq!['\u{61}', '\u{72}', '\u{69}', '\u{6E}', '\u{67}'], seq!['\u{E5}']),
        79 => (seq!['\u{61}', '\u{65}', '\u{6C}', '\u{69}', '\u{67}'], seq!['\u{E6}']),
        _ => (Seq::empty(), Seq::empty()),
    }
}

fn entity_block_4(i: usize) -> (r: (&'static [char], char, Option<char>))
    ensures
        r.0@ == spec_entity_block_4(i).0,
        spec_entity_block_4(i).1 == (match r.2 {
            Some(c2) => seq![r.1, c2],
            None => seq![r.1],
        }) || spec_entity_block_4(i).1.len() == 0,
{
    match i {
        64 => (&['\u{74}', '\u{69}', '\u{6D}', '\u{65}', '\u{73}'], '\u{D7}', None),
        65 => (&['\u{4F}', '\u{73}', '\u{6C}', '\u{61}', '\u{73}', '\u{68}'], '\u{D8}', None),
        66 => (&['\u{55}', '\u{67}', '\u{72}', '\u{61}', '\u{76}', '\u{65}'], '\u{D9}', None),
        67 => (&['\u{55}', '\u{61}', '\u{63}', '\u{75}', '\u{74}', '\u{65}'], '\u{DA}', None),
        68 => (&['\u{55}', '\u{63}', '\u{69}', '\u{72}', '\u{63}'], '\u{DB}', None),
        69 => (&['\u{55}', '\u{75}', '\u{6D}', '\u{6C}'], '\u{DC}', None),
        70 => (&['\u{59}', '\u{61}', '\u{63}', '\u{75}', '\u{74}', '\u{65}'], '\u{DD}', None),
        71 => (&['\u{54}', '\u{48}', '\u{4F}', '\u{52}', '\u{4E}'], '\u{DE}', None),
        72 => (&['\u{73}', '\u{7A}', '\u{6C}', '\u{69}', '\u{67}'], '\u{DF}', None),
        73 => (&['\u{61}', '\u{67}', '\u{72}', '\u{61}', '\u{76}', '\u{65}'], '\u{E0}', None),
        74 => (&['\u{61}', '\u{61}', '\u{63}', '\u{75}', '\u{74}', '\u{65}'], '\u{E1}', None),
        75 => (&['\u{61}', '\u{63}', '\u{69}', '\u{72}', '\u{63}'], '\u{E2}', None),
        76 => (&['\u{61}', '\u{74}', '\u{69}', '\u{6C}', '\u{64}', '\u{65}'], '\u{E3}', None),
        77 => (&['\u{61}', '\u{75}', '\u{6D}', '\u{6C}'], '\u{E4}', None),
        78 => (&['\u{61}', '\u{72}', '\u{69}', '\u{6E}', '\u{67}'], '\u{E5}', None),
        79 => (&['\u{61}', '\u{65}', '\u{6C}', '\u{69}', '\u{67}'], '\u{E6}', None),
        _ => (&[], ' ', None),
    }
}

pub open spec fn spec_entity_block_5(i: usize) -> (Seq<char>, Seq<char>) {
    match i {
        80 => (seq!['\u{63}', '\u{63}', '\u{65}', '\u{64}', '\u{69}', '\u{6C}'], seq!['\u{E7}']),
        81 => (seq!['\u{65}', '\u{67}', '\u{72}', '\u{61}', '\u{76}', '\u{65}'], seq!['\u{E8}']),
        82 => (seq!['\u{65}', '\u{61}', '\u{63}', '\u{75}', '\u{74}', '\u{65}'], seq!['\u{E9}']),
        83 => (seq!['\u{65}', '\u{63}', '\u{69}', '\u{72}', '\u{63}'], seq!['\u{EA}']),
        84 => (seq!['\u{65}', '\u{75}', '\u{6D}', '\u{6C}'], seq!['\u{EB}']),
        85 => (seq!['\u{69}', '\u{67}', '\u{72}', '\u{61}', '\u{76}', '\u{65}'], seq!['\u{EC}']),
        86 => (seq!['\u{69}', '\u{61}', '\u{63}', '\u{75}', '\u{74}', '\u{65}'], seq!['\u{ED}']),
        87 => (seq!['\u{69}', '\u{63}', '\u{69}', '\u{72}', '\u{63}'], seq!['\u{EE}']),
        88 => (seq!['\u{69}', '\u{75}', '\u{6D}', '\u{6C}'], seq!['\u{EF}']),
        89 => (seq!['\u{65}', '\u{74}', '\u{68}'], seq!['\u{F0}']),
        90 => (seq!['\u{6E}', '\u{74}', '\u{69}', '\u{6C}', '\u{64}', '\u{65}'], seq!['\u{F1}']),
        91 => (seq!['\u{6F}', '\u{67}', '\u{72}', '\u{61}', '\u{76}', '\u{65}'], seq!['\u{F2}']),
        92 => (seq!['\u{6F}', '\u{61}', '\u{63}', '\u{75}', '\u{74}', '\u{65}'], seq!['\u{F3}']),
        93 => (seq!['\u{6F}', '\u{63}', '\u{69}', '\u{72}', '\u{63}'], seq!['\u{F4}']),
        94 => (seq!['\u{6F}', '\u{74}', '\u{69}', '\u{6C}', '\u{64}', '\u{65}'], seq!['\u{F5}']),
        95 => (seq!['\u{6F}', '\u{75}', '\u{6D}', '\u{6C}'], seq!['\u{F6}']),
        _ => (Seq::empty(), Seq::empty()),
    }
}

fn entity_block_5(i: usize) -> (r: (&'static [char], char, Option<char>))
    ensures
        r.0@ == spec_entity_block_5(i).0,
        spec_entity_block_5(i).1 == (match r.2 {
            Some(c2) => seq![r.1, c2],
            None => seq![r.1],
        }) || spec_entity_block_5(i).1.len() == 0,
{
    match i {
        80 => (&['\u{63}', '\u{63}', '\u{65}', '\u{64}', '\u{69}', '\u{6C}'], '\u{E7}', None),
        81 => (&['\u{65}', '\u{67}', '\u{72}', '\u{61}', '\u{76}', '\u{65}'], '\u{E8}', None),
        82 => (&['\u{65}', '\u{61}', '\u{63}', '\u{75}', '\u{74}', '\u{65}'], '\u{E9}', None),
        83 => (&['\u{65}', '\u{63}', '\u{69}', '\u{72}', '\u{63}'], '\u{EA}', None),
        84 => (&['\u{65}', '\u{75}', '\u{6D}', '\u{6C}'], '\u{EB}', None),
        85 => (&['\u{69}', '\u{67}', '\u{72}', '\u{61}', '\u{76}', '\u{65}'], '\u{EC}', None),
        86 => (&['\u{69}', '\u{61}', '\u{63}', '\u{75}', '\u{74}', '\u{65}'], '\u{ED}', None),
        87 => (&['\u{69}', '\u{63}', '\u{69}', '\u{72}', '\u{63}'], '\u{EE}', None),
        88 => (&['\u{69}', '\u{75}', '\u{6D}', '\u{6C}'], '\u{EF}', None),
        89 => (&['\u{65}', '\u{74}', '\u{68}'], '\u{F0}', None),
        90 => (&['\u{6E}', '\u{74}', '\u{69}', '\u{6C}', '\u{64}', '\u{65}'], '\u{F1}', None),
        91 => (&['\u{6F}', '\u{67}', '\u{72}', '\u{61}', '\u{76}', '\u{65}'], '\u{F2}', None),
        92 => (&['\u{6F}', '\u{61}', '\u{63}', '\u{75}', '\u{74}', '\u{65}'], '\u{F3}', None),
        93 => (&['\u{6F}', '\u{63}', '\u{69}', '\u{72}', '\u{63}'], '\u{F4}', None),
        94 => (&['\u{6F}', '\u{74}', '\u{69}', '\u{6C}', '\u{64}', '\u{65}'], '\u{F5}', None),
        95 => (&['\u{6F}', '\u{75}', '\u{6D}', '\u{6C}'], '\u{F6}', None),
        _ => (&[], ' ', None),
    }
}

pub open spec fn spec_entity_block_6(i: usize) -> (Seq<char>, Seq<char>) {
    match i {
        96 => (seq!['\u{4F}', '\u{67}', '\u{72}', '\u{61}', '\u{76}', '\u{65}'], seq!['\u{D2}']),
        97 => (seq!['\u{4F}', '\u{61}', '\u{63}', '\u{75}', '\u{74}', '\u{65}'], seq!['\u{D3}']),
        98 => (seq!['\u{4F}', '\u{63}', '\u{69}', '\u{72}', '\u{63}'], seq!['\u{D4}']),
        99 => (seq!['\u{4F}', '\u{74}', '\u{69}', '\u{6C}', '\u{64}', '\u{65}'], seq!['\u{D5}']),
        100 => (seq!['\u{4F}', '\u{75}', '\u{6D}', '\u{6C}'], seq!['\u{D6}']),
        101 => (seq!['\u{64}', '\u{69}', '\u{76}', '\u{69}', '\u{64}', '\u{65}'], seq!['\u{F7}']),
        102 => (seq!['\u{6F}', '\u{73}', '\u{6C}', '\u{61}', '\u{73}', '\u{68}'], seq!['\u{F8}']),
        103 => (seq!['\u{75}', '\u{67}', '\u{72}', '\u{61}', '\u{76}', '\u{65}'], seq!['\u{F9}']),
        104 => (seq!['\u{75}', '\u{61}', '\u{63}', '\u{75}', '\u{74}', '\u{65}'], seq!['\u{FA}']),
        105 => (seq!['\u{75}', '\u{63}', '\u{69}', '\u{72}', '\u{63}'], seq!['\u{FB}']),
        106 => (seq!['\u{75}', '\u{75}', '\u{6D}', '\u{6C}'], seq!['\u{FC}']),
        107 => (seq!['\u{79}', '\u{61}', '\u{63}', '\u{75}', '\u{74}', '\u{65}'], seq!['\u{FD}']),
        108 => (seq!['\u{74}', '\u{68}', '\u{6F}', '\u{72}', '\u{6E}'], seq!['\u{FE}']),
        109 => (seq!['\u{79}', '\u{75}', '\u{6D}', '\u{6C}'], seq!['\u{FF}']),
        110 => (seq!['\u{4F}', '\u{45}', '\u{6C}', '\u{69}', '\u{67}'], seq!['\u{152}']),
        111 => (seq!['\u{6F}', '\u{65}', '\u{6C}', '\u{69}', '\u{67}'], seq!['\u{153}']),
        _ => (Seq::empty(), Seq::empty()),
    }
}

fn entity_block_6(i: usize) -> (r: (&'static [char], char, Option<char>))
    ensures
        r.0@ == spec_entity_block_6(i).0,
        spec_entity_block_6(i).1 == (match r.2 {
            Some(c2) => seq![r.1, c2],
            None => seq![r.1],
        }) || spec_entity_block_6(i).1.len() == 0,
{
    match i {
        96 => (&['\u{4F}', '\u{67}', '\u{72}', '\u{61}', '\u{76}', '\u{65}'], '\u{D2}', None),
        97 => (&['\u{4F}', '\u{61}', '\u{63}', '\u{75}', '\u{74}', '\u{65}'], '\u{D3}', None),
        98 => (&['\u{4F}', '\u{63}', '\u{69}', '\u{72}', '\u{63}'], '\u{D4}', None),
        99 => (&['\u{4F}', '\u{74}', '\u{69}', '\u{6C}', '\u{64}', '\u{65}'], '\u{D5}', None),
        100 => (&['\u{4F}', '\u{75}', '\u{6D}', '\u{6C}'], '\u{D6}', None),
        101 => (&['\u{64}', '\u{69}', '\u{76}', '\u{69}', '\u{64}', '\u{65}'], '\u{F7}', None),
        102 => (&['\u{6F}', '\u{73}', '\u{6C}', '\u{61}', '\u{73}', '\u{68}'], '\u{F8}', None),
        103 => (&['\u{75}', '\u{67}', '\u{72}', '\u{61}', '\u{76}', '\u{65}'], '\u{F9}', None),
        104 => (&['\u{75}', '\u{61}', '\u{63}', '\u{75}', '\u{74}', '\u{65}'], '\u{FA}', None),
        105 => (&['\u{75}', '\u{63}', '\u{69}', '\u{72}', '\u{63}'], '\u{FB}', None),
        106 => (&['\u{75}', '\u{75}', '\u{6D}', '\u{6C}'], '\u{FC}', None),
        107 => (&['\u{79}', '\u{61}', '\u{63}', '\u{75}', '\u{74}', '\u{65}'], '\u{FD}', None),
        108 => (&['\u{74}', '\u{68}', '\u{6F}', '\u{72}', '\u{6E}'], '\u{FE}', None),
        109 => (&['\u{79}', '\u{75}', '\u{6D}', '\u{6C}'], '\u{FF}', None),
        110 => (&['\u{4F}', '\u{45}', '\u{6C}', '\u{69}', '\u{67}'], '\u{152}', None),
        111 => (&['\u{6F}', '\u{65}', '\u{6C}', '\u{69}', '\u{67}'], '\u{153}', None),
        _ => (&[], ' ', None),
    }
}

pub open spec fn spec_entity_block_7(i: usize) -> (Seq<char>, Seq<char>) {
    match i {
        112 => (seq!['\u{53}', '\u{63}', '\u{61}', '\u{72}', '\u{6F}', '\u{6E}'], seq!['\u{160}']),
        113 => (seq!['\u{73}', '\u{63}', '\u{61}', '\u{72}', '\u{6F}', '\u{6E}'], seq!['\u{161}']),
        114 => (seq!['\u{59}', '\u{75}', '\u{6D}', '\u{6C}'], seq!['\u{178}']),
        115 => (seq!['\u{66}', '\u{6E}', '\u{6F}', '\u{66}'], seq!['\u{192}']),
        116 => (seq!['\u{63}', '\u{69}', '\u{72}', '\u{63}'], seq!['\u{2C6}']),
        117 => (seq!['\u{74}', '\u{69}', '\u{6C}', '\u{64}', '\u{65}'], seq!['\u{2DC}']),
        118 => (seq!['\u{41}', '\u{6C}', '\u{70}', '\u{68}', '\u{61}'], seq!['\u{391}']),
        119 => (seq!['\u{42}', '\u{65}', '\u{74}', '\u{61}'], seq!['\u{392}']),
        120 => (seq!['\u{47}', '\u{61}', '\u{6D}', '\u{6D}', '\u{61}'], seq!['\u{393}']),
        121 => (seq!['\u{44}', '\u{65}', '\u{6C}', '\u{74}', '\u{61}'], seq!['\u{394}']),
        122 => (seq!['\u{45}', '\u{70}', '\u{73}', '\u{69}', '\u{6C}', '\u{6F}', '\u{6E}'], seq!['\u{395}']),
        123 => (seq!['\u{5A}', '\u{65}', '\u{74}', '\u{61}'], seq!['\u{396}']),
        124 => (seq!['\u{45}', '\u{74}', '\u{61}'], seq!['\u{397}']),
        125 => (seq!['\u{54}', '\u{68}', '\u{65}', '\u{74}', '\u{61}'], seq!['\u{398}']),
        126 => (seq!['\u{49}', '\u{6F}', '\u{74}', '\u{61}'], seq!['\u{399}']),
        127 => (seq!['\u{4B}', '\u{61}', '\u{70}', '\u{70}', '\u{61}'], seq!['\u{39A}']),
        _ => (Seq::empty(), Seq::empty()),
    }
}

fn entity_block_7(i: usize) -> (r: (&'static [char], char, Option<char>))
    ensures
        r.0@ == spec_entity_block_7(i).0,
        spec_entity_block_7(i).1 == (match r.2 {
            Some(c2) => seq![r.1, c2],
            None => seq![r.1],
        }) || spec_entity_block_7(i).1.len() == 0,
{
    match i {
        112 => (&['\u{53}', '\u{63}', '\u{61}', '\u{72}', '\u{6F}', '\u{6E}'], '\u{160}', None),
        113 => (&['\u{73}', '\u{63}', '\u{61}', '\u{72}', '\u{6F}', '\u{6E}'], '\u{161}', None),
        114 => (&['\u{59}', '\u{75}', '\u{6D}', '\u{6C}'], '\u{178}', None),
        115 => (&['\u{66}', '\u{6E}', '\u{6F}', '\u{66}'], '\u{192}', None),
        116 => (&['\u{63}', '\u{69}', '\u{72}', '\u{63}'], '\u{2C6}', None),
        117 => (&['\u{74}', '\u{69}', '\u{6C}', '\u{64}', '\u{65}'], '\u{2DC}', None),
        118 => (&['\u{41}', '\u{6C}', '\u{70}', '\u{68}', '\u{61}'], '\u{391}', None),
        119 => (&['\u{42}', '\u{65}', '\u{74}', '\u{61}'], '\u{392}', None),
        120 => (&['\u{47}', '\u{61}', '\u{6D}', '\u{6D}', '\u{61}'], '\u{393}', None),
        121 => (&['\u{44}', '\u{65}', '\u{6C}', '\u{74}', '\u{61}'], '\u{394}', None),
        122 => (&['\u{45}', '\u{70}', '\u{73}', '\u{69}', '\u{6C}', '\u{6F}', '\u{6E}'], '\u{395}', None),
        123 => (&['\u{5A}', '\u{65}', '\u{74}', '\u{61}'], '\u{396}', None),
        124 => (&['\u{45}', '\u{74}', '\u{61}'], '\u{397}', None),
        125 => (&['\u{54}', '\u{68}', '\u{65}', '\u{74}', '\u{61}'], '\u{398}', None),
        126 => (&['\u{49}', '\u{6F}', '\u{74}', '\u{61}'], '\u{399}', None),
        127 => (&['\u{4B}', '\u{61}', '\u{70}', '\u{70}', '\u{61}'], '\u{39A}', None),
        _ => (&[], ' ', None),
    }
}

pub open spec fn spec_entity_block_8(i: usize) -> (Seq<char>, Seq<char>) {
    match i {
        128 => (seq!['\u{4C}', '\u{61}', '\u{6D}', '\u{62}', '\u{64}', '\u{61}'], seq!['\u{39B}']),
        129 => (seq!['\u{4D}', '\u{75}'], seq!['\u{39C}']),
        130 => (seq!['\u{4E}', '\u{75}'], seq!['\u{39D}']),
        131 => (seq!['\u{58}', '\u{69}'], seq!['\u{39E}']),
        132 => (seq!['\u{4F}', '\u{6D}', '\u{69}', '\u{63}', '\u{72}', '\u{6F}', '\u{6E}'], seq!['\u{39F}']),
        133 => (seq!['\u{50}', '\u{69}'], seq!['\u{3A0}']),
        134 => (seq!['\u{52}', '\u{68}', '\u{6F}'], seq!['\u{3A1}']),
        135 => (seq!['\u{53}', '\u{69}', '\u{67}', '\u{6D}', '\u{61}'], seq!['\u{3A3}']),
        136 => (seq!['\u{54}', '\u{61}', '\u{75}'], seq!['\u{3A4}']),
        137 => (seq!['\u{55}', '\u{70}', '\u{73}', '\u{69}', '\u{6C}', '\u{6F}', '\u{6E}'], seq!['\u{3A5}']),
        138 => (seq!['\u{50}', '\u{68}', '\u{69}'], seq!['\u{3A6}']),
        139 => (seq!['\u{43}', '\u{68}', '\u{69}'], seq!['\u{3A7}']),
        140 => (seq!['\u{50}', '\u{73}', '\u{69}'], seq!['\u{3A8}']),
        141 => (seq!['\u{4F}', '\u{6D}', '\u{65}', '\u{67}', '\u{61}'], seq!['\u{3A9}']),
        142 => (seq!['\u{61}', '\u{6C}', '\u{70}', '\u{68}', '\u{61}'], seq!['\u{3B1}']),
        143 => (seq!['\u{62}', '\u{65}', '\u{74}', '\u{61}'], seq!['\u{3B2}']),
        _ => (Seq::empty(), Seq::empty()),
    }
}

fn entity_block_8(i: usize) -> (r: (&'static [char], char, Option<char>))
    ensures
        r.0@ == spec_entity_block_8(i).0,
        spec_entity_block_8(i).1 == (match r.2 {
            Some(c2) => seq![r.1, c2],
            None => seq![r.1],
        }) || spec_entity_block_8(i).1.len() == 0,
{
    match i {
        128 => (&['\u{4C}', '\u{61}', '\u{6D}', '\u{62}', '\u{64}', '\u{61}'], '\u{39B}', None),
        129 => (&['\u{4D}', '\u{75}'], '\u{39C}', None),
        130 => (&['\u{4E}', '\u{75}'], '\u{39D}', None),
        131 => (&['\u{58}', '\u{69}'], '\u{39E}', None),
        132 => (&['\u{4F}', '\u{6D}', '\u{69}', '\u{63}', '\u{72}', '\u{6F}', '\u{6E}'], '\u{39F}', None),
        133 => (&['\u{50}', '\u{69}'], '\u{3A0}', None),
        134 => (&['\u{52}', '\u{68}', '\u{6F}'], '\u{3A1}', None),
        135 => (&['\u{53}', '\u{69}', '\u{67}', '\u{6D}', '\u{61}'], '\u{3A3}', None),
        136 => (&['\u{54}', '\u{61}', '\u{75}'], '\u{3A4}', None),
        137 => (&['\u{55}', '\u{70}', '\u{73}', '\u{69}', '\u{6C}', '\u{6F}', '\u{6E}'], '\u{3A5}', None),
        138 => (&['\u{50}', '\u{68}', '\u{69}'], '\u{3A6}', None),
        139 => (&['\u{43}', '\u{68}', '\u{69}'], '\u{3A7}', None),
        140 => (&['\u{50}', '\u{73}', '\u{69}'], '\u{3A8}', None),
        141 => (&['\u{4F}', '\u{6D}', '\u{65}', '\u{67}', '\u{61}'], '\u{3A9}', None),
        142 => (&['\u{61}', '\u{6C}', '\u{70}', '\u{68}', '\u{61}'], '\u{3B1}', None),
        143 => (&['\u{62}', '\u{65}', '\u{74}', '\u{61}'], '\u{3B2}', None),
        _ => (&[], ' ', None),
    }
}

pub open spec fn spec_entity_block_9(i: usize) -> (Seq<char>, Seq<char>) {
    match i {
        144 => (seq!['\u{67}', '\u{61}', '\u{6D}', '\u{6D}', '\u{61}'], seq!['\u{3B3}']),
        145 => (seq!['\u{64}', '\u{65}', '\u{6C}', '\u{74}', '\u{61}'], seq!['\u{3B4}']),
        146 => (seq!['\u{65}', '\u{70}', '\u{73}', '\u{69}', '\u{6C}', '\u{6F}', '\u{6E}'], seq!['\u{3B5}']),
        147 => (seq!['\u{7A}', '\u{65}', '\u{74}', '\u{61}'], seq!['\u{3B6}']),
        148 => (seq!['\u{65}', '\u{74}', '\u{61}'], seq!['\u{3B7}']),
        149 => (seq!['\u{74}', '\u{68}', '\u{65}', '\u{74}', '\u{61}'], seq!['\u{3B8}']),
        150 => (seq!['\u{69}', '\u{6F}', '\u{74}', '\u{61}'], seq!['\u{3B9}']),
        151 => (seq!['\u{6B}', '\u{61}', '\u{70}', '\u{70}', '\u{61}'], seq!['\u{3BA}']),
        152 => (seq!['\u{6C}', '\u{61}', '\u{6D}', '\u{62}', '\u{64}', '\u{61}'], seq!['\u{3BB}']),
        153 => (seq!['\u{6D}', '\u{75}'], seq!['\u{3BC}']),
        154 => (seq!['\u{6E}', '\u{75}'], seq!['\u{3BD}']),
        155 => (seq!['\u{78}', '\u{69}'], seq!['\u{3BE}']),
        156 => (seq!['\u{6F}', '\u{6D}', '\u{69}', '\u{63}', '\u{72}', '\u{6F}', '\u{6E}'], seq!['\u{3BF}']),
        157 => (seq!['\u{70}', '\u{69}'], seq!['\u{3C0}']),
        158 => (seq!['\u{72}', '\u{68}', '\u{6F}'], seq!['\u{3C1}']),
        159 => (seq!['\u{73}', '\u{69}', '\u{67}', '\u{6D}', '\u{61}', '\u{66}'], seq!['\u{3C2}']),
        _ => (Seq::empty(), Seq::empty()),
    }
}

fn entity_block_9(i: usize) -> (r: (&'static [char], char, Option<char>))
    ensures
        r.0@ == spec_entity_block_9(i).0,
        spec_entity_block_9(i).1 == (match r.2 {
            Some(c2) => seq![r.1, c2],
            None => seq![r.1],
        }) || spec_entity_block_9(i).1.len() == 0,
{
    match i {
        144 => (&['\u{67}', '\u{61}', '\u{6D}', '\u{6D}', '\u{61}'], '\u{3B3}', None),
        145 => (&['\u{64}', '\u{65}', '\u{6C}', '\u{74}', '\u{61}'], '\u{3B4}', None),
        146 => (&['\u{65}', '\u{70}', '\u{73}', '\u{69}', '\u{6C}', '\u{6F}', '\u{6E}'], '\u{3B5}', None),
        147 => (&['\u{7A}', '\u{65}', '\u{74}', '\u{61}'], '\u{3B6}', None),
        148 => (&['\u{65}', '\u{74}', '\u{61}'], '\u{3B7}', None),
        149 => (&['\u{74}', '\u{68}', '\u{65}', '\u{74}', '\u{61}'], '\u{3B8}', None),
        150 => (&['\u{69}', '\u{6F}', '\u{74}', '\u{61}'], '\u{3B9}', None),
        151 => (&['\u{6B}', '\u{61}', '\u{70}', '\u{70}', '\u{61}'], '\u{3BA}', None),
        152 => (&['\u{6C}', '\u{61}', '\u{6D}', '\u{62}', '\u{64}', '\u{61}'], '\u{3BB}', None),
        153 => (&['\u{6D}', '\u{75}'], '\u{3BC}', None),
        154 => (&['\u{6E}', '\u{75}'], '\u{3BD}', None),
        155 => (&['\u{78}', '\u{69}'], '\u{3BE}', None),
        156 => (&['\u{6F}', '\u{6D}', '\u{69}', '\u{63}', '\u{72}', '\u{6F}', '\u{6E}'], '\u{3BF}', None),
        157 => (&['\u{70}', '\u{69}'], '\u{3C0}', None),
        158 => (&['\u{72}', '\u{68}', '\u{6F}'], '\u{3C1}', None),
        159 => (&['\u{73}', '\u{69}', '\u{67}', '\u{6D}', '\u{61}', '\u{66}'], '\u{3C2}', None),
        _ => (&[], ' ', None),
    }
}

pub open spec fn spec_entity_block_10(i: usize) -> (Seq<char>, Seq<char>) {
    match i {
        160 => (seq!['\u{73}', '\u{69}', '\u{67}', '\u{6D}', '\u{61}'], seq!['\u{3C3}']),
        161 => (seq!['\u{74}', '\u{61}', '\u{75}'], seq!['\u{3C4}']),
        162 => (seq!['\u{75}', '\u{70}', '\u{73}', '\u{69}', '\u{6C}', '\u{6F}', '\u{6E}'], seq!['\u{3C5}']),
        163 => (seq!['\u{70}', '\u{68}', '\u{69}'], seq!['\u{3C6}']),
        164 => (seq!['\u{63}', '\u{68}', '\u{69}'], seq!['\u{3C7}']),
        165 => (seq!['\u{70}', '\u{73}', '\u{69}'], seq!['\u{3C8}']),
        166 => (seq!['\u{6F}', '\u{6D}', '\u{65}', '\u{67}', '\u{61}'], seq!['\u{3C9}']),
        167 => (seq!['\u{74}', '\u{68}', '\u{65}', '\u{74}', '\u{61}', '\u{73}', '\u{79}', '\u{6D}'], seq!['\u{3D1}']),
        168 => (seq!['\u{75}', '\u{70}', '\u{73}', '\u{69}', '\u{68}'], seq!['\u{3D2}']),
        169 => (seq!['\u{70}', '\u{69}', '\u{76}'], seq!['\u{3D6}']),
        170 => (seq!['\u{65}', '\u{6E}', '\u{73}', '\u{70}'], seq!['\u{2002}']),
        171 => (seq!['\u{65}', '\u{6D}', '\u{73}', '\u{70}'], seq!['\u{2003}']),
        172 => (seq!['\u{74}', '\u{68}', '\u{69}', '\u{6E}', '\u{73}', '\u{70}'], seq!['\u{2009}']),
        173 => (seq!['\u{7A}', '\u{77}', '\u{6E}', '\u{6A}'], seq!['\u{200C}']),
        174 => (seq!['\u{7A}', '\u{77}', '\u{6A}'], seq!['\u{200D}']),
        175 => (seq!['\u{6C}', '\u{72}', '\u{6D}'], seq!['\u{200E}']),
        _ => (Seq::empty(), Seq::empty()),
    }
}

fn entity_block_10(i: usize) -> (r: (&'static [char], char, Option<char>))
    ensures
        r.0@ == spec_entity_block_10(i).0,
        spec_entity_block_10(i).1 == (match r.2 {
            Some(c2) => seq![r.1, c2],
            None => seq![r.1],
        }) || spec_entity_block_10(i).1.len() == 0,
{
    match i {
        160 => (&['\u{73}', '\u{69}', '\u{67}', '\u{6D}', '\u{61}'], '\u{3C3}', None),
        161 => (&['\u{74}', '\u{61}', '\u{75}'], '\u{3C4}', None),
        162 => (&['\u{75}', '\u{70}', '\u{73}', '\u{69}', '\u{6C}', '\u{6F}', '\u{6E}'], '\u{3C5}', None),
        163 => (&['\u{70}', '\u{68}', '\u{69}'], '\u{3C6}', None),
        164 => (&['\u{63}', '\u{68}', '\u{69}'], '\u{3C7}', None),
        165 => (&['\u{70}', '\u{73}', '\u{69}'], '\u{3C8}', None),
        166 => (&['\u{6F}', '\u{6D}', '\u{65}', '\u{67}', '\u{61}'], '\u{3C9}', None),
        167 => (&['\u{74}', '\u{68}', '\u{65}', '\u{74}', '\u{61}', '\u{73}', '\u{79}', '\u{6D}'], '\u{3D1}', None),
        168 => (&['\u{75}', '\u{70}', '\u{73}', '\u{69}', '\u{68}'], '\u{3D2}', None),
        169 => (&['\u{70}', '\u{69}', '\u{76}'], '\u{3D6}', None),
        170 => (&['\u{65}', '\u{6E}', '\u{73}', '\u{70}'], '\u{2002}', None),
        171 => (&['\u{65}', '\u{6D}', '\u{73}', '\u{70}'], '\u{2003}', None),
        172 => (&['\u{74}', '\u{68}', '\u{69}', '\u{6E}', '\u{73}', '\u{70}'], '\u{2009}', None),
        173 => (&['\u{7A}', '\u{77}', '\u{6E}', '\u{6A}'], '\u{200C}', None),
        174 => (&['\u{7A}', '\u{77}', '\u{6A}'], '\u{200D}', None),
        175 => (&['\u{6C}', '\u{72}', '\u{6D}'], '\u{200E}', None),
        _ => (&[], ' ', None),
    }
}

pub open spec fn spec_entity_block_11(i: usize) -> (Seq<char>, Seq<char>) {
    match i {
        176 => (seq!['\u{72}', '\u{6C}', '\u{6D}'], seq!['\u{200F}']),
        177 => (seq!['\u{6E}', '\u{64}', '\u{61}', '\u{73}', '\u{68}'], seq!['\u{2013}']),
        178 => (seq!['\u{6D}', '\u{64}', '\u{61}', '\u{73}', '\u{68}'], seq!['\u{2014}']),
        179 => (seq!['\u{6C}', '\u{73}', '\u{71}', '\u{75}', '\u{6F}'], seq!['\u{2018}']),
        180 => (seq!['\u{72}', '\u{73}', '\u{71}', '\u{75}', '\u{6F}'], seq!['\u{2019}']),
        181 => (seq!['\u{73}', '\u{62}', '\u{71}', '\u{75}', '\u{6F}'], seq!['\u{201A}']),
        182 => (seq!['\u{6C}', '\u{64}', '\u{71}', '\u{75}', '\u{6F}'], seq!['\u{201C}']),
        183 => (seq!['\u{72}', '\u{64}', '\u{71}', '\u{75}', '\u{6F}'], seq!['\u{201D}']),
        184 => (seq!['\u{62}', '\u{64}', '\u{71}', '\u{75}', '\u{6F}'], seq!['\u{201E}']),
        185 => (seq!['\u{64}', '\u{61}', '\u{67}', '\u{67}', '\u{65}', '\u{72}'], seq!['\u{2020}']),
        186 => (seq!['\u{44}', '\u{61}', '\u{67}', '\u{67}', '\u{65}', '\u{72}'], seq!['\u{2021}']),
        187 => (seq!['\u{70}', '\u{65}', '\u{72}', '\u{6D}', '\u{69}', '\u{6C}'], seq!['\u{2030}']),
        188 => (seq!['\u{6C}', '\u{73}', '\u{61}', '\u{71}', '\u{75}', '\u{6F}'], seq!['\u{2039}']),
        189 => (seq!['\u{72}', '\u{73}', '\u{61}', '\u{71}', '\u{75}', '\u{6F}'], seq!['\u{203A}']),
        190 => (seq!['\u{65}', '\u{75}', '\u{72}', '\u{6F}'], seq!['\u{20AC}']),
        191 => (seq!['\u{74}', '\u{72}', '\u{61}', '\u{64}', '\u{65}'], seq!['\u{2122}']),
        _ => (Seq::empty(), Seq::empty()),
    }
}

fn entity_block_11(i: usize) -> (r: (&'static [char], char, Option<char>))
    ensures
        r.0@ == spec_entity_block_11(i).0,
        spec_entity_block_11(i).1 == (match r.2 {
            Some(c2) => seq![r.1, c2],
            None => seq![r.1],
        }) || spec_entity_block_11(i).1.len() == 0,
{
    match i {
        176 => (&['\u{72}', '\u{6C}', '\u{6D}'], '\u{200F}', None),
        177 => (&['\u{6E}', '\u{64}', '\u{61}', '\u{73}', '\u{68}'], '\u{2013}', None),
        178 => (&['\u{6D}', '\u{64}', '\u{61}', '\u{73}', '\u{68}'], '\u{2014}', None),
        179 => (&['\u{6C}', '\u{73}', '\u{71}', '\u{75}', '\u{6F}'], '\u{2018}', None),
        180 => (&['\u{72}', '\u{73}', '\u{71}', '\u{75}', '\u{6F}'], '\u{2019}', None),
        181 => (&['\u{73}', '\u{62}', '\u{71}', '\u{75}', '\u{6F}'], '\u{201A}', None),
        182 => (&['\u{6C}', '\u{64}', '\u{71}', '\u{75}', '\u{6F}'], '\u{201C}', None),
        183 => (&['\u{72}', '\u{64}', '\u{71}', '\u{75}', '\u{6F}'], '\u{201D}', None),
        184 => (&['\u{62}', '\u{64}', '\u{71}', '\u{75}', '\u{6F}'], '\u{201E}', None),
        185 => (&['\u{64}', '\u{61}', '\u{67}', '\u{67}', '\u{65}', '\u{72}'], '\u{2020}', None),
        186 => (&['\u{44}', '\u{61}', '\u{67}', '\u{67}', '\u{65}', '\u{72}'], '\u{2021}', None),
        187 => (&['\u{70}', '\u{65}', '\u{72}', '\u{6D}', '\u{69}', '\u{6C}'], '\u{2030}', None),
        188 => (&['\u{6C}', '\u{73}', '\u{61}', '\u{71}', '\u{75}', '\u{6F}'], '\u{2039}', None),
        189 => (&['\u{72}', '\u{73}', '\u{61}', '\u{71}', '\u{75}', '\u{6F}'], '\u{203A}', None),
        190 => (&['\u{65}', '\u{75}', '\u{72}', '\u{6F}'], '\u{20AC}', None),
        191 => (&['\u{74}', '\u{72}', '\u{61}', '\u{64}', '\u{65}'], '\u{2122}', None),
        _ => (&[], ' ', None),
    }
}

pub open spec fn spec_entity_block_12(i: usize) -> (Seq<char>, Seq<char>) {
    match i {
        192 => (seq!['\u{62}', '\u{75}', '\u{6C}', '\u{6C}'], seq!['\u{2022}']),
        193 => (seq!['\u{68}', '\u{65}', '\u{6C}', '\u{6C}', '\u{69}', '\u{70}'], seq!['\u{2026}']),
        194 => (seq!['\u{70}', '\u{72}', '\u{69}', '\u{6D}', '\u{65}'], seq!['\u{2032}']),
        195 => (seq!['\u{50}', '\u{72}', '\u{69}', '\u{6D}', '\u{65}'], seq!['\u{2033}']),
        196 => (seq!['\u{6F}', '\u{6C}', '\u{69}', '\u{6E}', '\u{65}'], seq!['\u{203E}']),
        197 => (seq!['\u{66}', '\u{72}', '\u{61}', '\u{73}', '\u{6C}'], seq!['\u{2044}']),
        198 => (seq!['\u{77}', '\u{65}', '\u{69}', '\u{65}', '\u{72}', '\u{70}'], seq!['\u{2118}']),
        199 => (seq!['\u{69}', '\u{6D}', '\u{61}', '\u{67}', '\u{65}'], seq!['\u{2111}']),
        200 => (seq!['\u{72}', '\u{65}', '\u{61}', '\u{6C}'], seq!['\u{211C}']),
        201 => (seq!['\u{61}', '\u{6C}', '\u{65}', '\u{66}', '\u{73}', '\u{79}', '\u{6D}'], seq!['\u{2135}']),
        202 => (seq!['\u{6C}', '\u{61}', '\u{72}', '\u{72}'], seq!['\u{2190}']),
        203 => (seq!['\u{75}', '\u{61}', '\u{72}', '\u{72}'], seq!['\u{2191}']),
        204 => (seq!['\u{72}', '\u{61}', '\u{72}', '\u{72}'], seq!['\u{2192}']),
        205 => (seq!['\u{64}', '\u{61}', '\u{72}', '\u{72}'], seq!['\u{2193}']),
        206 => (seq!['\u{68}', '\u{61}', '\u{72}', '\u{72}'], seq!['\u{2194}']),
        207 => (seq!['\u{63}', '\u{72}', '\u{61}', '\u{72}', '\u{72}'], seq!['\u{21B5}']),
        _ => (Seq::empty(), Seq::empty()),
    }
}

fn entity_block_12(i: usize) -> (r: (&'static [char], char, Option<char>))
    ensures
        r.0@ == spec_entity_block_12(i).0,
        spec_entity_block_12(i).1 == (match r.2 {
            Some(c2) => seq![r.1, c2],
            None => seq![r.1],
        }) || spec_entity_block_12(i).1.len() == 0,
{
    match i {
        192 => (&['\u{62}', '\u{75}', '\u{6C}', '\u{6C}'], '\u{2022}', None),
        193 => (&['\u{68}', '\u{65}', '\u{6C}', '\u{6C}', '\u{69}', '\u{70}'], '\u{2026}', None),
        194 => (&['\u{70}', '\u{72}', '\u{69}', '\u{6D}', '\u{65}'], '\u{2032}', None),
        195 => (&['\u{50}', '\u{72}', '\u{69}', '\u{6D}', '\u{65}'], '\u{2033}', None),
        196 => (&['\u{6F}', '\u{6C}', '\u{69}', '\u{6E}', '\u{65}'], '\u{203E}', None),
        197 => (&['\u{66}', '\u{72}', '\u{61}', '\u{73}', '\u{6C}'], '\u{2044}', None),
        198 => (&['\u{77}', '\u{65}', '\u{69}', '\u{65}', '\u{72}', '\u{70}'], '\u{2118}', None),
        199 => (&['\u{69}', '\u{6D}', '\u{61}', '\u{67}', '\u{65}'], '\u{2111}', None),
        200 => (&['\u{72}', '\u{65}', '\u{61}', '\u{6C}'], '\u{211C}', None),
        201 => (&['\u{61}', '\u{6C}', '\u{65}', '\u{66}', '\u{73}', '\u{79}', '\u{6D}'], '\u{2135}', None),
        202 => (&['\u{6C}', '\u{61}', '\u{72}', '\u{72}'], '\u{2190}', None),
        203 => (&['\u{75}', '\u{61}', '\u{72}', '\u{72}'], '\u{2191}', None),
        204 => (&['\u{72}', '\u{61}', '\u{72}', '\u{72}'], '\u{2192}', None),
        205 => (&['\u{64}', '\u{61}', '\u{72}', '\u{72}'], '\u{2193}', None),
        206 => (&['\u{68}', '\u{61}', '\u{72}', '\u{72}'], '\u{2194}', None),
        207 => (&['\u{63}', '\u{72}', '\u{61}', '\u{72}', '\u{72}'], '\u{21B5}', None),
        _ => (&[], ' ', None),
    }
}

pub open spec fn spec_entity_block_13(i: usize) -> (Seq<char>, Seq<char>) {
    match i {
        208 => (seq!['\u{6C}', '\u{41}', '\u{72}', '\u{72}'], seq!['\u{21D0}']),
        209 => (seq!['\u{75}', '\u{41}', '\u{72}', '\u{72}'], seq!['\u{21D1}']),
        210 => (seq!['\u{72}', '\u{41}', '\u{72}', '\u{72}'], seq!['\u{21D2}']),
        211 => (seq!['\u{64}', '\u{41}', '\u{72}', '\u{72}'], seq!['\u{21D3}']),
        212 => (seq!['\u{68}', '\u{41}', '\u{72}', '\u{72}'], seq!['\u{21D4}']),
        213 => (seq!['\u{66}', '\u{6F}', '\u{72}', '\u{61}', '\u{6C}', '\u{6C}'], seq!['\u{2200}']),
        214 => (seq!['\u{70}', '\u{61}', '\u{72}', '\u{74}'], seq!['\u{2202}']),
        215 => (seq!['\u{65}', '\u{78}', '\u{69}', '\u{73}', '\u{74}'], seq!['\u{2203}']),
        216 => (seq!['\u{65}', '\u{6D}', '\u{70}', '\u{74}', '\u{79}'], seq!['\u{2205}']),
        217 => (seq!['\u{6E}', '\u{61}', '\u{62}', '\u{6C}', '\u{61}'], seq!['\u{2207}']),
        218 => (seq!['\u{69}', '\u{73}', '\u{69}', '\u{6E}'], seq!['\u{2208}']),
        219 => (seq!['\u{6E}', '\u{6F}', '\u{74}', '\u{69}', '\u{6E}'], seq!['\u{2209}']),
        220 => (seq!['\u{6E}', '\u{69}'], seq!['\u{220B}']),
        221 => (seq!['\u{70}', '\u{72}', '\u{6F}', '\u{64}'], seq!['\u{220F}']),
        222 => (seq!['\u{73}', '\u{75}', '\u{6D}'], seq!['\u{2211}']),
        223 => (seq!['\u{6D}', '\u{69}', '\u{6E}', '\u{75}', '\u{73}'], seq!['\u{2212}']),
        _ => (Seq::empty(), Seq::empty()),
    }
}

fn entity_block_13(i: usize) -> (r: (&'static [char], char, Option<char>))
    ensures
        r.0@ == spec_entity_block_13(i).0,
        spec_entity_block_13(i).1 == (match r.2 {
            Some(c2) => seq![r.1, c2],
            None => seq![r.1],
        }) || spec_entity_block_13(i).1.len() == 0,
{
    match i {
        208 => (&['\u{6C}', '\u{41}', '\u{72}', '\u{72}'], '\u{21D0}', None),
        209 => (&['\u{75}', '\u{41}', '\u{72}', '\u{72}'], '\u{21D1}', None),
        210 => (&['\u{72}', '\u{41}', '\u{72}', '\u{72}'], '\u{21D2}', None),
        211 => (&['\u{64}', '\u{41}', '\u{72}', '\u{72}'], '\u{21D3}', None),
        212 => (&['\u{68}', '\u{41}', '\u{72}', '\u{72}'], '\u{21D4}', None),
        213 => (&['\u{66}', '\u{6F}', '\u{72}', '\u{61}', '\u{6C}', '\u{6C}'], '\u{2200}', None),
        214 => (&['\u{70}', '\u{61}', '\u{72}', '\u{74}'], '\u{2202}', None),
        215 => (&['\u{65}', '\u{78}', '\u{69}', '\u{73}', '\u{74}'], '\u{2203}', None),
        216 => (&['\u{65}', '\u{6D}', '\u{70}', '\u{74}', '\u{79}'], '\u{2205}', None),
        217 => (&['\u{6E}', '\u{61}', '\u{62}', '\u{6C}', '\u{61}'], '\u{2207}', None),
        218 => (&['\u{69}', '\u{73}', '\u{69}', '\u{6E}'], '\u{2208}', None),
        219 => (&['\u{6E}', '\u{6F}', '\u{74}', '\u{69}', '\u{6E}'], '\u{2209}', None),
        220 => (&['\u{6E}', '\u{69}'], '\u{220B}', None),
        221 => (&['\u{70}', '\u{72}', '\u{6F}', '\u{64}'], '\u{220F}', None),
        222 => (&['\u{73}', '\u{75}', '\u{6D}'], '\u{2211}', None),
        223 => (&['\u{6D}', '\u{69}', '\u{6E}', '\u{75}', '\u{73}'], '\u{2212}', None),
        _ => (&[], ' ', None),
    }
}

pub open spec fn spec_entity_block_14(i: usize) -> (Seq<char>, Seq<char>) {
    match i {
        224 => (seq!['\u{6C}', '\u{6F}', '\u{77}', '\u{61}', '\u{73}', '\u{74}'], seq!['\u{2217}']),
        225 => (seq!['\u{72}', '\u{61}', '\u{64}', '\u{69}', '\u{63}'], seq!['\u{221A}']),
        226 => (seq!['\u{70}', '\u{72}', '\u{6F}', '\u{70}'], seq!['\u{221D}']),
        227 => (seq!['\u{69}', '\u{6E}', '\u{66}', '\u{69}', '\u{6E}'], seq!['\u{221E}']),
        228 => (seq!['\u{61}', '\u{6E}', '\u{67}'], seq!['\u{2220}']),
        229 => (seq!['\u{61}', '\u{6E}', '\u{64}'], seq!['\u{2227}']),
        230 => (seq!['\u{6F}', '\u{72}'], seq!['\u{2228}']),
        231 => (seq!['\u{63}', '\u{61}', '\u{70}'], seq!['\u{2229}']),
        232 => (seq!['\u{63}', '\u{75}', '\u{70}'], seq!['\u{222A}']),
        233 => (seq!['\u{69}', '\u{6E}', '\u{74}'], seq!['\u{222B}']),
        234 => (seq!['\u{74}', '\u{68}', '\u{65}', '\u{72}', '\u{65}', '\u{34}'], seq!['\u{2234}']),
        235 => (seq!['\u{73}', '\u{69}', '\u{6D}'], seq!['\u{223C}']),
        236 => (seq!['\u{63}', '\u{6F}', '\u{6E}', '\u{67}'], seq!['\u{2245}']),
        237 => (seq!['\u{61}', '\u{73}', '\u{79}', '\u{6D}', '\u{70}'], seq!['\u{2248}']),
        238 => (seq!['\u{6E}', '\u{65}'], seq!['\u{2260}']),
        239 => (seq!['\u{65}', '\u{71}', '\u{75}', '\u{69}', '\u{76}'], seq!['\u{2261}']),
        _ => (Seq::empty(), Seq::empty()),
    }
}

fn entity_block_14(i: usize) -> (r: (&'static [char], char, Option<char>))
    ensures
        r.0@ == spec_entity_block_14(i).0,
        spec_entity_block_14(i).1 == (match r.2 {
            Some(c2) => seq![r.1, c2],
            None => seq![r.1],
        }) || spec_entity_block_14(i).1.len() == 0,
{
    match i {
        224 => (&['\u{6C}', '\u{6F}', '\u{77}', '\u{61}', '\u{73}', '\u{74}'], '\u{2217}', None),
        225 => (&['\u{72}', '\u{61}', '\u{64}', '\u{69}', '\u{63}'], '\u{221A}', None),
        226 => (&['\u{70}', '\u{72}', '\u{6F}', '\u{70}'], '\u{221D}', None),
        227 => (&['\u{69}', '\u{6E}', '\u{66}', '\u{69}', '\u{6E}'], '\u{221E}', None),
        228 => (&['\u{61}', '\u{6E}', '\u{67}'], '\u{2220}', None),
        229 => (&['\u{61}', '\u{6E}', '\u{64}'], '\u{2227}', None),
        230 => (&['\u{6F}', '\u{72}'], '\u{2228}', None),
        231 => (&['\u{63}', '\u{61}', '\u{70}'], '\u{2229}', None),
        232 => (&['\u{63}', '\u{75}', '\u{70}'], '\u{222A}', None),
        233 => (&['\u{69}', '\u{6E}', '\u{74}'], '\u{222B}', None),
        234 => (&['\u{74}', '\u{68}', '\u{65}', '\u{72}', '\u{65}', '\u{34}'], '\u{2234}', None),
        235 => (&['\u{73}', '\u{69}', '\u{6D}'], '\u{223C}', None),
        236 => (&['\u{63}', '\u{6F}', '\u{6E}', '\u{67}'], '\u{2245}', None),
        237 => (&['\u{61}', '\u{73}', '\u{79}', '\u{6D}', '\u{70}'], '\u{2248}', None),
        238 => (&['\u{6E}', '\u{65}'], '\u{2260}', None),
        239 => (&['\u{65}', '\u{71}', '\u{75}', '\u{69}', '\u{76}'], '\u{2261}', None),
        _ => (&[], ' ', None),
    }
}

pub open spec fn spec_entity_block_15(i: usize) -> (Seq<char>, Seq<char>) {
    match i {
        240 => (seq!['\u{6C}', '\u{65}'], seq!['\u{2264}']),
        241 => (seq!['\u{67}', '\u{65}'], seq!['\u{2265}']),
        242 => (seq!['\u{73}', '\u{75}', '\u{62}'], seq!['\u{2282}']),
        243 => (seq!['\u{73}', '\u{75}', '\u{70}'], seq!['\u{2283}']),
        244 => (seq!['\u{6E}', '\u{73}', '\u{75}', '\u{62}'], seq!['\u{2284}']),
        245 => (seq!['\u{73}', '\u{75}', '\u{62}', '\u{65}'], seq!['\u{2286}']),
        246 => (seq!['\u{73}', '\u{75}', '\u{70}', '\u{65}'], seq!['\u{2287}']),
        247 => (seq!['\u{6F}', '\u{70}', '\u{6C}', '\u{75}', '\u{73}'], seq!['\u{2295}']),
        248 => (seq!['\u{6F}', '\u{74}', '\u{69}', '\u{6D}', '\u{65}', '\u{73}'], seq!['\u{2297}']),
        249 => (seq!['\u{70}', '\u{65}', '\u{72}', '\u{70}'], seq!['\u{22A5}']),
        250 => (seq!['\u{73}', '\u{64}', '\u{6F}', '\u{74}'], seq!['\u{22C5}']),
        251 => (seq!['\u{6C}', '\u{63}', '\u{65}', '\u{69}', '\u{6C}'], seq!['\u{2308}']),
        252 => (seq!['\u{72}', '\u{63}', '\u{65}', '\u{69}', '\u{6C}'], seq!['\u{2309}']),
        253 => (seq!['\u{6C}', '\u{66}', '\u{6C}', '\u{6F}', '\u{6F}', '\u{72}'], seq!['\u{230A}']),
        254 => (seq!['\u{72}', '\u{66}', '\u{6C}', '\u{6F}', '\u{6F}', '\u{72}'], seq!['\u{230B}']),
        255 => (seq!['\u{6C}', '\u{61}', '\u{6E}', '\u{67}'], seq!['\u{27E8}']),
        _ => (Seq::empty(), Seq::empty()),
    }
}

fn entity_block_15(i: usize) -> (r: (&'static [char], char, Option<char>))
    ensures
        r.0@ == spec_entity_block_15(i).0,
        spec_entity_block_15(i).1 == (match r.2 {
            Some(c2) => seq![r.1, c2],
            None => seq![r.1],
        }) || spec_entity_block_15(i).1.len() == 0,
{
    match i {
        240 => (&['\u{6C}', '\u{65}'], '\u{2264}', None),
        241 => (&['\u{67}', '\u{65}'], '\u{2265}', None),
        242 => (&['\u{73}', '\u{75}', '\u{62}'], '\u{2282}', None),
        243 => (&['\u{73}', '\u{75}', '\u{70}'], '\u{2283}', None),
        244 => (&['\u{6E}', '\u{73}', '\u{75}', '\u{62}'], '\u{2284}', None),
        245 => (&['\u{73}', '\u{75}', '\u{62}', '\u{65}'], '\u{2286}', None),
        246 => (&['\u{73}', '\u{75}', '\u{70}', '\u{65}'], '\u{2287}', None),
        247 => (&['\u{6F}', '\u{70}', '\u{6C}', '\u{75}', '\u{73}'], '\u{2295}', None),
        248 => (&['\u{6F}', '\u{74}', '\u{69}', '\u{6D}', '\u{65}', '\u{73}'], '\u{2297}', None),
        249 => (&['\u{70}', '\u{65}', '\u{72}', '\u{70}'], '\u{22A5}', None),
        250 => (&['\u{73}', '\u{64}', '\u{6F}', '\u{74}'], '\u{22C5}', None),
        251 => (&['\u{6C}', '\u{63}', '\u{65}', '\u{69}', '\u{6C}'], '\u{2308}', None),
        252 => (&['\u{72}', '\u{63}', '\u{65}', '\u{69}', '\u{6C}'], '\u{2309}', None),
        253 => (&['\u{6C}', '\u{66}', '\u{6C}', '\u{6F}', '\u{6F}', '\u{72}'], '\u{230A}', None),
        254 => (&['\u{72}', '\u{66}', '\u{6C}', '\u{6F}', '\u{6F}', '\u{72}'], '\u{230B}', None),
        255 => (&['\u{6C}', '\u{61}', '\u{6E}', '\u{67}'], '\u{27E8}', None),
        _ => (&[], ' ', None),
    }
}

pub open spec fn spec_entity_block_16(i: usize) -> (Seq<char>, Seq<char>) {
    match i {
        256 => (seq!['\u{72}', '\u{61}', '\u{6E}', '\u{67}'], seq!['\u{27E9}']),
        257 => (seq!['\u{6C}', '\u{6F}', '\u{7A}'], seq!['\u{25CA}']),
        258 => (seq!['\u{73}', '\u{70}', '\u{61}', '\u{64}', '\u{65}', '\u{73}'], seq!['\u{2660}']),
        259 => (seq!['\u{63}', '\u{6C}', '\u{75}', '\u{62}', '\u{73}'], seq!['\u{2663}']),
        260 => (seq!['\u{68}', '\u{65}', '\u{61}', '\u{72}', '\u{74}', '\u{73}'], seq!['\u{2665}']),
        261 => (seq!['\u{64}', '\u{69}', '\u{61}', '\u{6D}', '\u{73}'], seq!['\u{2666}']),
        262 => (seq!['\u{74}', '\u{68}', '\u{65}', '\u{74}', '\u{61}', '\u{73}', '\u{79}', '\u{6D}', '\u{32}'], seq!['\u{3D1}']),
        263 => (seq!['\u{44}', '\u{63}', '\u{61}', '\u{72}', '\u{6F}', '\u{6E}'], seq!['\u{10E}']),
        264 => (seq!['\u{64}', '\u{63}', '\u{61}', '\u{72}', '\u{6F}', '\u{6E}'], seq!['\u{10F}']),
        265 => (seq!['\u{48}', '\u{69}', '\u{6C}', '\u{62}', '\u{65}', '\u{72}', '\u{74}', '\u{53}', '\u{70}', '\u{61}', '\u{63}', '\u{65}'], seq!['\u{210B}']),
        266 => (seq!['\u{44}', '\u{69}', '\u{66}', '\u{66}', '\u{65}', '\u{72}', '\u{65}', '\u{6E}', '\u{74}', '\u{69}', '\u{61}', '\u{6C}', '\u{44}'], seq!['\u{2146}']),
        267 => (seq!['\u{43}', '\u{6C}', '\u{6F}', '\u{63}', '\u{6B}', '\u{77}', '\u{69}', '\u{73}', '\u{65}', '\u{43}', '\u{6F}', '\u{6E}', '\u{74}', '\u{6F}', '\u{75}', '\u{72}', '\u{49}', '\u{6E}', '\u{74}', '\u{65}', '\u{67}', '\u{72}', '\u{61}', '\u{6C}'], seq!['\u{2232}']),
        268 => (seq!['\u{43}', '\u{6F}', '\u{75}', '\u{6E}', '\u{74}', '\u{65}', '\u{72}', '\u{43}', '\u{6C}', '\u{6F}', '\u{63}', '\u{6B}', '\u{77}', '\u{69}', '\u{73}', '\u{65}', '\u{43}', '\u{6F}', '\u{6E}', '\u{74}', '\u{6F}', '\u{75}', '\u{72}', '\u{49}', '\u{6E}', '\u{74}', '\u{65}', '\u{67}', '\u{72}', '\u{61}', '\u{6C}'], seq!['\u{2233}']),
        269 => (seq!['\u{75}', '\u{62}', '\u{72}', '\u{65}', '\u{76}', '\u{65}'], seq!['\u{16D}']),
        270 => (seq!['\u{55}', '\u{62}', '\u{72}', '\u{65}', '\u{76}', '\u{65}'], seq!['\u{16C}']),
        271 => (seq!['\u{6F}', '\u{67}', '\u{6F}', '\u{6E}'], seq!['\u{2DB}']),
        _ => (Seq::empty(), Seq::empty()),
    }
}

fn entity_block_16(i: usize) -> (r: (&'static [char], char, Option<char>))
    ensures
        r.0@ == spec_entity_block_16(i).0,
        spec_entity_block_16(i).1 == (match r.2 {
            Some(c2) => seq![r.1, c2],
            None => seq![r.1],
        }) || spec_entity_block_16(i).1.len() == 0,
{
    match i {
        256 => (&['\u{72}', '\u{61}', '\u{6E}', '\u{67}'], '\u{27E9}', None),
        257 => (&['\u{6C}', '\u{6F}', '\u{7A}'], '\u{25CA}', None),
        258 => (&['\u{73}', '\u{70}', '\u{61}', '\u{64}', '\u{65}', '\u{73}'], '\u{2660}', None),
        259 => (&['\u{63}', '\u{6C}', '\u{75}', '\u{62}', '\u{73}'], '\u{2663}', None),
        260 => (&['\u{68}', '\u{65}', '\u{61}', '\u{72}', '\u{74}', '\u{73}'], '\u{2665}', None),
        261 => (&['\u{64}', '\u{69}', '\u{61}', '\u{6D}', '\u{73}'], '\u{2666}', None),
        262 => (&['\u{74}', '\u{68}', '\u{65}', '\u{74}', '\u{61}', '\u{73}', '\u{79}', '\u{6D}', '\u{32}'], '\u{3D1}', None),
        263 => (&['\u{44}', '\u{63}', '\u{61}', '\u{72}', '\u{6F}', '\u{6E}'], '\u{10E}', None),
        264 => (&['\u{64}', '\u{63}', '\u{61}', '\u{72}', '\u{6F}', '\u{6E}'], '\u{10F}', None),
        265 => (&['\u{48}', '\u{69}', '\u{6C}', '\u{62}', '\u{65}', '\u{72}', '\u{74}', '\u{53}', '\u{70}', '\u{61}', '\u{63}', '\u{65}'], '\u{210B}', None),
        266 => (&['\u{44}', '\u{69}', '\u{66}', '\u{66}', '\u{65}', '\u{72}', '\u{65}', '\u{6E}', '\u{74}', '\u{69}', '\u{61}', '\u{6C}', '\u{44}'], '\u{2146}', None),
        267 => (&['\u{43}', '\u{6C}', '\u{6F}', '\u{63}', '\u{6B}', '\u{77}', '\u{69}', '\u{73}', '\u{65}', '\u{43}', '\u{6F}', '\u{6E}', '\u{74}', '\u{6F}', '\u{75}', '\u{72}', '\u{49}', '\u{6E}', '\u{74}', '\u{65}', '\u{67}', '\u{72}', '\u{61}', '\u{6C}'], '\u{2232}', None),
        268 => (&['\u{43}', '\u{6F}', '\u{75}', '\u{6E}', '\u{74}', '\u{65}', '\u{72}', '\u{43}', '\u{6C}', '\u{6F}', '\u{63}', '\u{6B}', '\u{77}', '\u{69}', '\u{73}', '\u{65}', '\u{43}', '\u{6F}', '\u{6E}', '\u{74}', '\u{6F}', '\u{75}', '\u{72}', '\u{49}', '\u{6E}', '\u{74}', '\u{65}', '\u{67}', '\u{72}', '\u{61}', '\u{6C}'], '\u{2233}', None),
        269 => (&['\u{75}', '\u{62}', '\u{72}', '\u{65}', '\u{76}', '\u{65}'], '\u{16D}', None),
        270 => (&['\u{55}', '\u{62}', '\u{72}', '\u{65}', '\u{76}', '\u{65}'], '\u{16C}', None),
        271 => (&['\u{6F}', '\u{67}', '\u{6F}', '\u{6E}'], '\u{2DB}', None),
        _ => (&[], ' ', None),
    }
}

pub open spec fn spec_entity_block_17(i: usize) -> (Seq<char>, Seq<char>) {
    match i {
        272 => (seq!['\u{64}', '\u{62}', '\u{6C}', '\u{61}', '\u{63}'], seq!['\u{2DD}']),
        273 => (seq!['\u{44}', '\u{6F}', '\u{77}', '\u{6E}', '\u{42}', '\u{72}', '\u{65}', '\u{76}', '\u{65}'], seq!['\u{311}']),
        274 => (seq!['\u{55}', '\u{6E}', '\u{64}', '\u{65}', '\u{72}', '\u{42}', '\u{61}', '\u{72}'], seq!['\u{331}']),
        275 => (seq!['\u{69}', '\u{6E}', '\u{63}', '\u{61}', '\u{72}', '\u{65}'], seq!['\u{2105}']),
        276 => (seq!['\u{67}', '\u{73}', '\u{63}', '\u{72}'], seq!['\u{210A}']),
        277 => (seq!['\u{48}', '\u{69}', '\u{6C}', '\u{62}', '\u{65}', '\u{72}', '\u{74}', '\u{53}', '\u{70}', '\u{61}', '\u{63}', '\u{65}', '\u{32}'], seq!['\u{210B}']),
        278 => (seq!['\u{5A}', '\u{65}', '\u{74}', '\u{61}', '\u{32}'], seq!['\u{396}']),
        279 => (seq!['\u{70}', '\u{68}', '\u{6F}', '\u{6E}', '\u{65}'], seq!['\u{2706}']),
        280 => (seq!['\u{63}', '\u{6F}', '\u{6C}', '\u{6F}', '\u{6E}'], seq!['\u{3A}']),
        281 => (seq!['\u{63}', '\u{6F}', '\u{6D}', '\u{6D}', '\u{61}'], seq!['\u{2C}']),
        282 => (seq!['\u{70}', '\u{65}', '\u{72}', '\u{69}', '\u{6F}', '\u{64}'], seq!['\u{2E}']),
        283 => (seq!['\u{73}', '\u{6F}', '\u{6C}'], seq!['\u{2F}']),
        284 => (seq!['\u{62}', '\u{73}', '\u{6F}', '\u{6C}'], seq!['\u{5C}']),
        285 => (seq!['\u{6E}', '\u{64}', '\u{61}', '\u{73}', '\u{68}', '\u{32}'], seq!['\u{2013}']),
        286 => (seq!['\u{68}', '\u{6F}', '\u{72}', '\u{62}', '\u{61}', '\u{72}'], seq!['\u{2015}']),
        287 => (seq!['\u{56}', '\u{65}', '\u{72}', '\u{74}'], seq!['\u{2016}']),
        _ => (Seq::empty(), Seq::empty()),
    }
}

fn entity_block_17(i: usize) -> (r: (&'static [char], char, Option<char>))
    ensures
        r.0@ == spec_entity_block_17(i).0,
        spec_entity_block_17(i).1 == (match r.2 {
            Some(c2) => seq![r.1, c2],
            None => seq![r.1],
        }) || spec_entity_block_17(i).1.len() == 0,
{
    match i {
        272 => (&['\u{64}', '\u{62}', '\u{6C}', '\u{61}', '\u{63}'], '\u{2DD}', None),
        273 => (&['\u{44}', '\u{6F}', '\u{77}', '\u{6E}', '\u{42}', '\u{72}', '\u{65}', '\u{76}', '\u{65}'], '\u{311}', None),
        274 => (&['\u{55}', '\u{6E}', '\u{64}', '\u{65}', '\u{72}', '\u{42}', '\u{61}', '\u{72}'], '\u{331}', None),
        275 => (&['\u{69}', '\u{6E}', '\u{63}', '\u{61}', '\u{72}', '\u{65}'], '\u{2105}', None),
        276 => (&['\u{67}', '\u{73}', '\u{63}', '\u{72}'], '\u{210A}', None),
        277 => (&['\u{48}', '\u{69}', '\u{6C}', '\u{62}', '\u{65}', '\u{72}', '\u{74}', '\u{53}', '\u{70}', '\u{61}', '\u{63}', '\u{65}', '\u{32}'], '\u{210B}', None),
        278 => (&['\u{5A}', '\u{65}', '\u{74}', '\u{61}', '\u{32}'], '\u{396}', None),
        279 => (&['\u{70}', '\u{68}', '\u{6F}', '\u{6E}', '\u{65}'], '\u{2706}', None),
        280 => (&['\u{63}', '\u{6F}', '\u{6C}', '\u{6F}', '\u{6E}'], '\u{3A}', None),
        281 => (&['\u{63}', '\u{6F}', '\u{6D}', '\u{6D}', '\u{61}'], '\u{2C}', None),
        282 => (&['\u{70}', '\u{65}', '\u{72}', '\u{69}', '\u{6F}', '\u{64}'], '\u{2E}', None),
        283 => (&['\u{73}', '\u{6F}', '\u{6C}'], '\u{2F}', None),
        284 => (&['\u{62}', '\u{73}', '\u{6F}', '\u{6C}'], '\u{5C}', None),
        285 => (&['\u{6E}', '\u{64}', '\u{61}', '\u{73}', '\u{68}', '\u{32}'], '\u{2013}', None),
        286 => (&['\u{68}', '\u{6F}', '\u{72}', '\u{62}', '\u{61}', '\u{72}'], '\u{2015}', None),
        287 => (&['\u{56}', '\u{65}', '\u{72}', '\u{74}'], '\u{2016}', None),
        _ => (&[], ' ', None),
    }
}

pub open spec fn spec_entity_block_18(i: usize) -> (Seq<char>, Seq<char>) {
    match i {
        288 => (seq!['\u{66}', '\u{72}', '\u{61}', '\u{63}', '\u{31}', '\u{33}'], seq!['\u{2153}']),
        289 => (seq!['\u{66}', '\u{72}', '\u{61}', '\u{63}', '\u{32}', '\u{33}'], seq!['\u{2154}']),
        290 => (seq!['\u{66}', '\u{72}', '\u{61}', '\u{63}', '\u{31}', '\u{35}'], seq!['\u{2155}']),
        291 => (seq!['\u{66}', '\u{72}', '\u{61}', '\u{63}', '\u{32}', '\u{35}'], seq!['\u{2156}']),
        292 => (seq!['\u{66}', '\u{72}', '\u{61}', '\u{63}', '\u{33}', '\u{35}'], seq!['\u{2157}']),
        293 => (seq!['\u{66}', '\u{72}', '\u{61}', '\u{63}', '\u{34}', '\u{35}'], seq!['\u{2158}']),
        294 => (seq!['\u{66}', '\u{72}', '\u{61}', '\u{63}', '\u{31}', '\u{36}'], seq!['\u{2159}']),
        295 => (seq!['\u{66}', '\u{72}', '\u{61}', '\u{63}', '\u{35}', '\u{36}'], seq!['\u{215A}']),
        296 => (seq!['\u{66}', '\u{72}', '\u{61}', '\u{63}', '\u{31}', '\u{38}'], seq!['\u{215B}']),
        297 => (seq!['\u{66}', '\u{72}', '\u{61}', '\u{63}', '\u{33}', '\u{38}'], seq!['\u{215C}']),
        298 => (seq!['\u{66}', '\u{72}', '\u{61}', '\u{63}', '\u{35}', '\u{38}'], seq!['\u{215D}']),
        299 => (seq!['\u{66}', '\u{72}', '\u{61}', '\u{63}', '\u{37}', '\u{38}'], seq!['\u{215E}']),
        300 => (seq!['\u{73}', '\u{75}', '\u{70}', '\u{34}'], seq!['\u{2074}']),
        301 => (seq!['\u{73}', '\u{75}', '\u{70}', '\u{35}'], seq!['\u{2075}']),
        302 => (seq!['\u{73}', '\u{75}', '\u{70}', '\u{36}'], seq!['\u{2076}']),
        303 => (seq!['\u{73}', '\u{75}', '\u{70}', '\u{37}'], seq!['\u{2077}']),
        _ => (Seq::empty(), Seq::empty()),
    }
}

fn entity_block_18(i: usize) -> (r: (&'static [char], char, Option<char>))
    ensures
        r.0@ == spec_entity_block_18(i).0,
        spec_entity_block_18(i).1 == (match r.2 {
            Some(c2) => seq![r.1, c2],
            None => seq![r.1],
        }) || spec_entity_block_18(i).1.len() == 0,
{
    match i {
        288 => (&['\u{66}', '\u{72}', '\u{61}', '\u{63}', '\u{31}', '\u{33}'], '\u{2153}', None),
        289 => (&['\u{66}', '\u{72}', '\u{61}', '\u{63}', '\u{32}', '\u{33}'], '\u{2154}', None),
        290 => (&['\u{66}', '\u{72}', '\u{61}', '\u{63}', '\u{31}', '\u{35}'], '\u{2155}', None),
        291 => (&['\u{66}', '\u{72}', '\u{61}', '\u{63}', '\u{32}', '\u{35}'], '\u{2156}', None),
        292 => (&['\u{66}', '\u{72}', '\u{61}', '\u{63}', '\u{33}', '\u{35}'], '\u{2157}', None),
        293 => (&['\u{66}', '\u{72}', '\u{61}', '\u{63}', '\u{34}', '\u{35}'], '\u{2158}', None),
        294 => (&['\u{66}', '\u{72}', '\u{61}', '\u{63}', '\u{31}', '\u{36}'], '\u{2159}', None),
        295 => (&['\u{66}', '\u{72}', '\u{61}', '\u{63}', '\u{35}', '\u{36}'], '\u{215A}', None),
        296 => (&['\u{66}', '\u{72}', '\u{61}', '\u{63}', '\u{31}', '\u{38}'], '\u{215B}', None),
        297 => (&['\u{66}', '\u{72}', '\u{61}', '\u{63}', '\u{33}', '\u{38}'], '\u{215C}', None),
        298 => (&['\u{66}', '\u{72}', '\u{61}', '\u{63}', '\u{35}', '\u{38}'], '\u{215D}', None),
        299 => (&['\u{66}', '\u{72}', '\u{61}', '\u{63}', '\u{37}', '\u{38}'], '\u{215E}', None),
        300 => (&['\u{73}', '\u{75}', '\u{70}', '\u{34}'], '\u{2074}', None),
        301 => (&['\u{73}', '\u{75}', '\u{70}', '\u{35}'], '\u{2075}', None),
        302 => (&['\u{73}', '\u{75}', '\u{70}', '\u{36}'], '\u{2076}', None),
        303 => (&['\u{73}', '\u{75}', '\u{70}', '\u{37}'], '\u{2077}', None),
        _ => (&[], ' ', None),
    }
}

pub open spec fn spec_entity_block_19(i: usize) -> (Seq<char>, Seq<char>) {
    match i {
        304 => (seq!['\u{73}', '\u{75}', '\u{70}', '\u{38}'], seq!['\u{2078}']),
        305 => (seq!['\u{73}', '\u{75}', '\u{70}', '\u{39}'], seq!['\u{2079}']),
        306 => (seq!['\u{73}', '\u{75}', '\u{70}', '\u{30}'], seq!['\u{2070}']),
        307 => (seq!['\u{69}', '\u{65}', '\u{78}', '\u{63}', '\u{6C}', '\u{32}'], seq!['\u{A1}']),
        308 => (seq!['\u{51}', '\u{55}', '\u{4F}', '\u{54}'], seq!['\u{22}']),
        309 => (seq!['\u{73}', '\u{6F}', '\u{6C}', '\u{32}'], seq!['\u{2F}']),
        310 => (seq!['\u{48}', '\u{61}', '\u{74}'], seq!['\u{5E}']),
        311 => (seq!['\u{70}', '\u{65}', '\u{72}', '\u{63}', '\u{6E}', '\u{74}'], seq!['\u{25}']),
        312 => (seq!['\u{6E}', '\u{75}', '\u{6D}'], seq!['\u{23}']),
        313 => (seq!['\u{64}', '\u{6F}', '\u{6C}', '\u{6C}', '\u{61}', '\u{72}'], seq!['\u{24}']),
        314 => (seq!['\u{6C}', '\u{70}', '\u{61}', '\u{72}'], seq!['\u{28}']),
        315 => (seq!['\u{72}', '\u{70}', '\u{61}', '\u{72}'], seq!['\u{29}']),
        316 => (seq!['\u{70}', '\u{6C}', '\u{75}', '\u{73}'], seq!['\u{2B}']),
        317 => (seq!['\u{73}', '\u{65}', '\u{6D}', '\u{69}'], seq!['\u{3B}']),
        318 => (seq!['\u{65}', '\u{71}', '\u{75}', '\u{61}', '\u{6C}', '\u{73}'], seq!['\u{3D}']),
        319 => (seq!['\u{71}', '\u{75}', '\u{65}', '\u{73}', '\u{74}'], seq!['\u{3F}']),
        _ => (Seq::empty(), Seq::empty()),
    }
}

fn entity_block_19(i: usize) -> (r: (&'static [char], char, Option<char>))
    ensures
        r.0@ == spec_entity_block_19(i).0,
        spec_entity_block_19(i).1 == (match r.2 {
            Some(c2) => seq![r.1, c2],
            None => seq![r.1],
        }) || spec_entity_block_19(i).1.len() == 0,
{
    match i {
        304 => (&['\u{73}', '\u{75}', '\u{70}', '\u{38}'], '\u{2078}', None),
        305 => (&['\u{73}', '\u{75}', '\u{70}', '\u{39}'], '\u{2079}', None),
        306 => (&['\u{73}', '\u{75}', '\u{70}', '\u{30}'], '\u{2070}', None),
        307 => (&['\u{69}', '\u{65}', '\u{78}', '\u{63}', '\u{6C}', '\u{32}'], '\u{A1}', None),
        308 => (&['\u{51}', '\u{55}', '\u{4F}', '\u{54}'], '\u{22}', None),
        309 => (&['\u{73}', '\u{6F}', '\u{6C}', '\u{32}'], '\u{2F}', None),
        310 => (&['\u{48}', '\u{61}', '\u{74}'], '\u{5E}', None),
        311 => (&['\u{70}', '\u{65}', '\u{72}', '\u{63}', '\u{6E}', '\u{74}'], '\u{25}', None),
        312 => (&['\u{6E}', '\u{75}', '\u{6D}'], '\u{23}', None),
        313 => (&['\u{64}', '\u{6F}', '\u{6C}', '\u{6C}', '\u{61}', '\u{72}'], '\u{24}', None),
        314 => (&['\u{6C}', '\u{70}', '\u{61}', '\u{72}'], '\u{28}', None),
        315 => (&['\u{72}', '\u{70}', '\u{61}', '\u{72}'], '\u{29}', None),
        316 => (&['\u{70}', '\u{6C}', '\u{75}', '\u{73}'], '\u{2B}', None),
        317 => (&['\u{73}', '\u{65}', '\u{6D}', '\u{69}'], '\u{3B}', None),
        318 => (&['\u{65}', '\u{71}', '\u{75}', '\u{61}', '\u{6C}', '\u{73}'], '\u{3D}', None),
        319 => (&['\u{71}', '\u{75}', '\u{65}', '\u{73}', '\u{74}'], '\u{3F}', None),
        _ => (&[], ' ', None),
    }
}

pub open spec fn spec_entity_block_20(i: usize) -> (Seq<char>, Seq<char>) {
    match i {
        320 => (seq!['\u{63}', '\u{6F}', '\u{6D}', '\u{6D}', '\u{61}', '\u{74}'], seq!['\u{40}']),
        321 => (seq!['\u{6C}', '\u{73}', '\u{71}', '\u{62}'], seq!['\u{5B}']),
        322 => (seq!['\u{72}', '\u{73}', '\u{71}', '\u{62}'], seq!['\u{5D}']),
        323 => (seq!['\u{6C}', '\u{63}', '\u{75}', '\u{62}'], seq!['\u{7B}']),
        324 => (seq!['\u{72}', '\u{63}', '\u{75}', '\u{62}'], seq!['\u{7D}']),
        325 => (seq!['\u{76}', '\u{65}', '\u{72}', '\u{62}', '\u{61}', '\u{72}'], seq!['\u{7C}']),
        326 => (seq!['\u{67}', '\u{72}', '\u{61}', '\u{76}', '\u{65}'], seq!['\u{60}']),
        327 => (seq!['\u{4E}', '\u{65}', '\u{77}', '\u{4C}', '\u{69}', '\u{6E}', '\u{65}'], seq!['\u{A}']),
        328 => (seq!['\u{54}', '\u{61}', '\u{62}'], seq!['\u{9}']),
        329 => (seq!['\u{4E}', '\u{6F}', '\u{6E}', '\u{42}', '\u{72}', '\u{65}', '\u{61}', '\u{6B}', '\u{69}', '\u{6E}', '\u{67}', '\u{53}', '\u{70}', '\u{61}', '\u{63}', '\u{65}'], seq!['\u{A0}']),
        330 => (seq!['\u{55}', '\u{6E}', '\u{64}', '\u{65}', '\u{72}', '\u{42}', '\u{72}', '\u{61}', '\u{63}', '\u{6B}', '\u{65}', '\u{74}'], seq!['\u{23B5}']),
        331 => (seq!['\u{62}', '\u{62}', '\u{72}', '\u{6B}'], seq!['\u{23B5}']),
        332 => (seq!['\u{4F}', '\u{76}', '\u{65}', '\u{72}', '\u{42}', '\u{72}', '\u{61}', '\u{63}', '\u{6B}', '\u{65}', '\u{74}'], seq!['\u{23B4}']),
        333 => (seq!['\u{44}', '\u{6F}', '\u{75}', '\u{62}', '\u{6C}', '\u{65}', '\u{4C}', '\u{65}', '\u{66}', '\u{74}', '\u{54}', '\u{65}', '\u{65}'], seq!['\u{2AE4}']),
        334 => (seq!['\u{44}', '\u{6F}', '\u{77}', '\u{6E}', '\u{41}', '\u{72}', '\u{72}', '\u{6F}', '\u{77}'], seq!['\u{2193}']),
        335 => (seq!['\u{55}', '\u{70}', '\u{41}', '\u{72}', '\u{72}', '\u{6F}', '\u{77}'], seq!['\u{2191}']),
        _ => (Seq::empty(), Seq::empty()),
    }
}

fn entity_block_20(i: usize) -> (r: (&'static [char], char, Option<char>))
    ensures
        r.0@ == spec_entity_block_20(i).0,
        spec_entity_block_20(i).1 == (match r.2 {
            Some(c2) => seq![r.1, c2],
            None => seq![r.1],
        }) || spec_entity_block_20(i).1.len() == 0,
{
    match i {
        320 => (&['\u{63}', '\u{6F}', '\u{6D}', '\u{6D}', '\u{61}', '\u{74}'], '\u{40}', None),
        321 => (&['\u{6C}', '\u{73}', '\u{71}', '\u{62}'], '\u{5B}', None),
        322 => (&['\u{72}', '\u{73}', '\u{71}', '\u{62}'], '\u{5D}', None),
        323 => (&['\u{6C}', '\u{63}', '\u{75}', '\u{62}'], '\u{7B}', None),
        324 => (&['\u{72}', '\u{63}', '\u{75}', '\u{62}'], '\u{7D}', None),
        325 => (&['\u{76}', '\u{65}', '\u{72}', '\u{62}', '\u{61}', '\u{72}'], '\u{7C}', None),
        326 => (&['\u{67}', '\u{72}', '\u{61}', '\u{76}', '\u{65}'], '\u{60}', None),
        327 => (&['\u{4E}', '\u{65}', '\u{77}', '\u{4C}', '\u{69}', '\u{6E}', '\u{65}'], '\u{A}', None),
        328 => (&['\u{54}', '\u{61}', '\u{62}'], '\u{9}', None),
        329 => (&['\u{4E}', '\u{6F}', '\u{6E}', '\u{42}', '\u{72}', '\u{65}', '\u{61}', '\u{6B}', '\u{69}', '\u{6E}', '\u{67}', '\u{53}', '\u{70}', '\u{61}', '\u{63}', '\u{65}'], '\u{A0}', None),
        330 => (&['\u{55}', '\u{6E}', '\u{64}', '\u{65}', '\u{72}', '\u{42}', '\u{72}', '\u{61}', '\u{63}', '\u{6B}', '\u{65}', '\u{74}'], '\u{23B5}', None),
        331 => (&['\u{62}', '\u{62}', '\u{72}', '\u{6B}'], '\u{23B5}', None),
        332 => (&['\u{4F}', '\u{76}', '\u{65}', '\u{72}', '\u{42}', '\u{72}', '\u{61}', '\u{63}', '\u{6B}', '\u{65}', '\u{74}'], '\u{23B4}', None),
        333 => (&['\u{44}', '\u{6F}', '\u{75}', '\u{62}', '\u{6C}', '\u{65}', '\u{4C}', '\u{65}', '\u{66}', '\u{74}', '\u{54}', '\u{65}', '\u{65}'], '\u{2AE4}', None),
        334 => (&['\u{44}', '\u{6F}', '\u{77}', '\u{6E}', '\u{41}', '\u{72}', '\u{72}', '\u{6F}', '\u{77}'], '\u{2193}', None),
        335 => (&['\u{55}', '\u{70}', '\u{41}', '\u{72}', '\u{72}', '\u{6F}', '\u{77}'], '\u{2191}', None),
        _ => (&[], ' ', None),
    }
}

pub open spec fn spec_entity_block_21(i: usize) -> (Seq<char>, Seq<char>) {
    match i {
        336 => (seq!['\u{4C}', '\u{65}', '\u{66}', '\u{74}', '\u{41}', '\u{72}', '\u{72}', '\u{6F}', '\u{77}'], seq!['\u{2190}']),
        337 => (seq!['\u{52}', '\u{69}', '\u{67}', '\u{68}', '\u{74}', '\u{41}', '\u{72}', '\u{72}', '\u{6F}', '\u{77}'], seq!['\u{2192}']),
        338 => (seq!['\u{55}', '\u{70}', '\u{44}', '\u{6F}', '\u{77}', '\u{6E}', '\u{41}', '\u{72}', '\u{72}', '\u{6F}', '\u{77}'], seq!['\u{2195}']),
        339 => (seq!['\u{44}', '\u{6F}', '\u{75}', '\u{62}', '\u{6C}', '\u{65}', '\u{44}', '\u{6F}', '\u{77}', '\u{6E}', '\u{41}', '\u{72}', '\u{72}', '\u{6F}', '\u{77}'], seq!['\u{21D3}']),
        340 => (seq!['\u{44}', '\u{6F}', '\u{75}', '\u{62}', '\u{6C}', '\u{65}', '\u{55}', '\u{70}', '\u{41}', '\u{72}', '\u{72}', '\u{6F}', '\u{77}'], seq!['\u{21D1}']),
        341 => (seq!['\u{44}', '\u{6F}', '\u{75}', '\u{62}', '\u{6C}', '\u{65}', '\u{4C}', '\u{65}', '\u{66}', '\u{74}', '\u{41}', '\u{72}', '\u{72}', '\u{6F}', '\u{77}'], seq!['\u{21D0}']),
        342 => (seq!['\u{44}', '\u{6F}', '\u{75}', '\u{62}', '\u{6C}', '\u{65}', '\u{52}', '\u{69}', '\u{67}', '\u{68}', '\u{74}', '\u{41}', '\u{72}', '\u{72}', '\u{6F}', '\u{77}'], seq!['\u{21D2}']),
        343 => (seq!['\u{44}', '\u{6F}', '\u{75}', '\u{62}', '\u{6C}', '\u{65}', '\u{4C}', '\u{65}', '\u{66}', '\u{74}', '\u{52}', '\u{69}', '\u{67}', '\u{68}', '\u{74}', '\u{41}', '\u{72}', '\u{72}', '\u{6F}', '\u{77}'], seq!['\u{21D4}']),
        344 => (seq!['\u{4C}', '\u{65}', '\u{66}', '\u{74}', '\u{54}', '\u{65}', '\u{65}', '\u{41}', '\u{72}', '\u{72}', '\u{6F}', '\u{77}'], seq!['\u{21A4}']),
        345 => (seq!['\u{55}', '\u{70}', '\u{54}', '\u{65}', '\u{65}', '\u{41}', '\u{72}', '\u{72}', '\u{6F}', '\u{77}'], seq!['\u{21A5}']),
        346 => (seq!['\u{52}', '\u{69}', '\u{67}', '\u{68}', '\u{74}', '\u{54}', '\u{65}', '\u{65}', '\u{41}', '\u{72}', '\u{72}', '\u{6F}', '\u{77}'], seq!['\u{21A6}']),
        347 => (seq!['\u{44}', '\u{6F}', '\u{77}', '\u{6E}', '\u{54}', '\u{65}', '\u{65}', '\u{41}', '\u{72}', '\u{72}', '\u{6F}', '\u{77}'], seq!['\u{21A7}']),
        348 => (seq!['\u{4C}', '\u{6F}', '\u{6E}', '\u{67}', '\u{4C}', '\u{65}', '\u{66}', '\u{74}', '\u{41}', '\u{72}', '\u{72}', '\u{6F}', '\u{77}'], seq!['\u{27F5}']),
        349 => (seq!['\u{4C}', '\u{6F}', '\u{6E}', '\u{67}', '\u{52}', '\u{69}', '\u{67}', '\u{68}', '\u{74}', '\u{41}', '\u{72}', '\u{72}', '\u{6F}', '\u{77}'], seq!['\u{27F6}']),
        350 => (seq!['\u{4C}', '\u{6F}', '\u{6E}', '\u{67}', '\u{4C}', '\u{65}', '\u{66}', '\u{74}', '\u{52}', '\u{69}', '\u{67}', '\u{68}', '\u{74}', '\u{41}', '\u{72}', '\u{72}', '\u{6F}', '\u{77}'], seq!['\u{27F7}']),
        351 => (seq!['\u{44}', '\u{6F}', '\u{75}', '\u{62}', '\u{6C}', '\u{65}', '\u{4C}', '\u{6F}', '\u{6E}', '\u{67}', '\u{4C}', '\u{65}', '\u{66}', '\u{74}', '\u{41}', '\u{72}', '\u{72}', '\u{6F}', '\u{77}'], seq!['\u{27F8}']),
        _ => (Seq::empty(), Seq::empty()),
    }
}

fn entity_block_21(i: usize) -> (r: (&'static [char], char, Option<char>))
    ensures
        r.0@ == spec_entity_block_21(i).0,
        spec_entity_block_21(i).1 == (match r.2 {
            Some(c2) => seq![r.1, c2],
            None => seq![r.1],
        }) || spec_entity_block_21(i).1.len() == 0,
{
    match i {
        336 => (&['\u{4C}', '\u{65}', '\u{66}', '\u{74}', '\u{41}', '\u{72}', '\u{72}', '\u{6F}', '\u{77}'], '\u{2190}', None),
        337 => (&['\u{52}', '\u{69}', '\u{67}', '\u{68}', '\u{74}', '\u{41}', '\u{72}', '\u{72}', '\u{6F}', '\u{77}'], '\u{2192}', None),
        338 => (&['\u{55}', '\u{70}', '\u{44}', '\u{6F}', '\u{77}', '\u{6E}', '\u{41}', '\u{72}', '\u{72}', '\u{6F}', '\u{77}'], '\u{2195}', None),
        339 => (&['\u{44}', '\u{6F}', '\u{75}', '\u{62}', '\u{6C}', '\u{65}', '\u{44}', '\u{6F}', '\u{77}', '\u{6E}', '\u{41}', '\u{72}', '\u{72}', '\u{6F}', '\u{77}'], '\u{21D3}', None),
        340 => (&['\u{44}', '\u{6F}', '\u{75}', '\u{62}', '\u{6C}', '\u{65}', '\u{55}', '\u{70}', '\u{41}', '\u{72}', '\u{72}', '\u{6F}', '\u{77}'], '\u{21D1}', None),
        341 => (&['\u{44}', '\u{6F}', '\u{75}', '\u{62}', '\u{6C}', '\u{65}', '\u{4C}', '\u{65}', '\u{66}', '\u{74}', '\u{41}', '\u{72}', '\u{72}', '\u{6F}', '\u{77}'], '\u{21D0}', None),
        342 => (&['\u{44}', '\u{6F}', '\u{75}', '\u{62}', '\u{6C}', '\u{65}', '\u{52}', '\u{69}', '\u{67}', '\u{68}', '\u{74}', '\u{41}', '\u{72}', '\u{72}', '\u{6F}', '\u{77}'], '\u{21D2}', None),
        343 => (&['\u{44}', '\u{6F}', '\u{75}', '\u{62}', '\u{6C}', '\u{65}', '\u{4C}', '\u{65}', '\u{66}', '\u{74}', '\u{52}', '\u{69}', '\u{67}', '\u{68}', '\u{74}', '\u{41}', '\u{72}', '\u{72}', '\u{6F}', '\u{77}'], '\u{21D4}', None),
        344 => (&['\u{4C}', '\u{65}', '\u{66}', '\u{74}', '\u{54}', '\u{65}', '\u{65}', '\u{41}', '\u{72}', '\u{72}', '\u{6F}', '\u{77}'], '\u{21A4}', None),
        345 => (&['\u{55}', '\u{70}', '\u{54}', '\u{65}', '\u{65}', '\u{41}', '\u{72}', '\u{72}', '\u{6F}', '\u{77}'], '\u{21A5}', None),
        346 => (&['\u{52}', '\u{69}', '\u{67}', '\u{68}', '\u{74}', '\u{54}', '\u{65}', '\u{65}', '\u{41}', '\u{72}', '\u{72}', '\u{6F}', '\u{77}'], '\u{21A6}', None),
        347 => (&['\u{44}', '\u{6F}', '\u{77}', '\u{6E}', '\u{54}', '\u{65}', '\u{65}', '\u{41}', '\u{72}', '\u{72}', '\u{6F}', '\u{77}'], '\u{21A7}', None),
        348 => (&['\u{4C}', '\u{6F}', '\u{6E}', '\u{67}', '\u{4C}', '\u{65}', '\u{66}', '\u{74}', '\u{41}', '\u{72}', '\u{72}', '\u{6F}', '\u{77}'], '\u{27F5}', None),
        349 => (&['\u{4C}', '\u{6F}', '\u{6E}', '\u{67}', '\u{52}', '\u{69}', '\u{67}', '\u{68}', '\u{74}', '\u{41}', '\u{72}', '\u{72}', '\u{6F}', '\u{77}'], '\u{27F6}', None),
        350 => (&['\u{4C}', '\u{6F}', '\u{6E}', '\u{67}', '\u{4C}', '\u{65}', '\u{66}', '\u{74}', '\u{52}', '\u{69}', '\u{67}', '\u{68}', '\u{74}', '\u{41}', '\u{72}', '\u{72}', '\u{6F}', '\u{77}'], '\u{27F7}', None),
        351 => (&['\u{44}', '\u{6F}', '\u{75}', '\u{62}', '\u{6C}', '\u{65}', '\u{4C}', '\u{6F}', '\u{6E}', '\u{67}', '\u{4C}', '\u{65}', '\u{66}', '\u{74}', '\u{41}', '\u{72}', '\u{72}', '\u{6F}', '\u{77}'], '\u{27F8}', None),
        _ => (&[], ' ', None),
    }
}

pub open spec fn spec_entity_block_22(i: usize) -> (Seq<char>, Seq<char>) {
    match i {
        352 => (seq!['\u{44}', '\u{6F}', '\u{75}', '\u{62}', '\u{6C}', '\u{65}', '\u{4C}', '\u{6F}', '\u{6E}', '\u{67}', '\u{52}', '\u{69}', '\u{67}', '\u{68}', '\u{74}', '\u{41}', '\u{72}', '\u{72}', '\u{6F}', '\u{77}'], seq!['\u{27F9}']),
        353 => (seq!['\u{44}', '\u{6F}', '\u{75}', '\u{62}', '\u{6C}', '\u{65}', '\u{4C}', '\u{6F}', '\u{6E}', '\u{67}', '\u{4C}', '\u{65}', '\u{66}', '\u{74}', '\u{52}', '\u{69}', '\u{67}', '\u{68}', '\u{74}', '\u{41}', '\u{72}', '\u{72}', '\u{6F}', '\u{77}'], seq!['\u{27FA}']),
        354 => (seq!['\u{4D}', '\u{61}', '\u{70}'], seq!['\u{2905}']),
        355 => (seq!['\u{44}', '\u{6F}', '\u{77}', '\u{6E}', '\u{54}', '\u{65}', '\u{65}'], seq!['\u{22A4}']),
        356 => (seq!['\u{55}', '\u{70}', '\u{54}', '\u{65}', '\u{65}'], seq!['\u{22A5}']),
        357 => (seq!['\u{43}', '\u{75}', '\u{70}'], seq!['\u{22D3}']),
        358 => (seq!['\u{43}', '\u{61}', '\u{70}'], seq!['\u{22D2}']),
        359 => (seq!['\u{53}', '\u{71}', '\u{75}', '\u{61}', '\u{72}', '\u{65}'], seq!['\u{25A1}']),
        360 => (seq!['\u{42}', '\u{6C}', '\u{61}', '\u{63}', '\u{6B}', '\u{53}', '\u{71}', '\u{75}', '\u{61}', '\u{72}', '\u{65}'], seq!['\u{25A0}']),
        361 => (seq!['\u{57}', '\u{68}', '\u{69}', '\u{74}', '\u{65}', '\u{43}', '\u{69}', '\u{72}', '\u{63}', '\u{6C}', '\u{65}'], seq!['\u{25CB}']),
        362 => (seq!['\u{42}', '\u{6C}', '\u{61}', '\u{63}', '\u{6B}', '\u{43}', '\u{69}', '\u{72}', '\u{63}', '\u{6C}', '\u{65}'], seq!['\u{25CF}']),
        363 => (seq!['\u{73}', '\u{74}', '\u{61}', '\u{72}'], seq!['\u{22C6}']),
        364 => (seq!['\u{63}', '\u{68}', '\u{65}', '\u{63}', '\u{6B}'], seq!['\u{2713}']),
        365 => (seq!['\u{63}', '\u{72}', '\u{6F}', '\u{73}', '\u{73}'], seq!['\u{2717}']),
        366 => (seq!['\u{6D}', '\u{61}', '\u{6C}', '\u{74}'], seq!['\u{2720}']),
        367 => (seq!['\u{73}', '\u{65}', '\u{78}', '\u{74}'], seq!['\u{2736}']),
        _ => (Seq::empty(), Seq::empty()),
    }
}

fn entity_block_22(i: usize) -> (r: (&'static [char], char, Option<char>))
    ensures
        r.0@ == spec_entity_block_22(i).0,
        spec_entity_block_22(i).1 == (match r.2 {
            Some(c2) => seq![r.1, c2],
            None => seq![r.1],
        }) || spec_entity_block_22(i).1.len() == 0,
{
    match i {
        352 => (&['\u{44}', '\u{6F}', '\u{75}', '\u{62}', '\u{6C}', '\u{65}', '\u{4C}', '\u{6F}', '\u{6E}', '\u{67}', '\u{52}', '\u{69}', '\u{67}', '\u{68}', '\u{74}', '\u{41}', '\u{72}', '\u{72}', '\u{6F}', '\u{77}'], '\u{27F9}', None),
        353 => (&['\u{44}', '\u{6F}', '\u{75}', '\u{62}', '\u{6C}', '\u{65}', '\u{4C}', '\u{6F}', '\u{6E}', '\u{67}', '\u{4C}', '\u{65}', '\u{66}', '\u{74}', '\u{52}', '\u{69}', '\u{67}', '\u{68}', '\u{74}', '\u{41}', '\u{72}', '\u{72}', '\u{6F}', '\u{77}'], '\u{27FA}', None),
        354 => (&['\u{4D}', '\u{61}', '\u{70}'], '\u{2905}', None),
        355 => (&['\u{44}', '\u{6F}', '\u{77}', '\u{6E}', '\u{54}', '\u{65}', '\u{65}'], '\u{22A4}', None),
        356 => (&['\u{55}', '\u{70}', '\u{54}', '\u{65}', '\u{65}'], '\u{22A5}', None),
        357 => (&['\u{43}', '\u{75}', '\u{70}'], '\u{22D3}', None),
        358 => (&['\u{43}', '\u{61}', '\u{70}'], '\u{22D2}', None),
        359 => (&['\u{53}', '\u{71}', '\u{75}', '\u{61}', '\u{72}', '\u{65}'], '\u{25A1}', None),
        360 => (&['\u{42}', '\u{6C}', '\u{61}', '\u{63}', '\u{6B}', '\u{53}', '\u{71}', '\u{75}', '\u{61}', '\u{72}', '\u{65}'], '\u{25A0}', None),
        361 => (&['\u{57}', '\u{68}', '\u{69}', '\u{74}', '\u{65}', '\u{43}', '\u{69}', '\u{72}', '\u{63}', '\u{6C}', '\u{65}'], '\u{25CB}', None),
        362 => (&['\u{42}', '\u{6C}', '\u{61}', '\u{63}', '\u{6B}', '\u{43}', '\u{69}', '\u{72}', '\u{63}', '\u{6C}', '\u{65}'], '\u{25CF}', None),
        363 => (&['\u{73}', '\u{74}', '\u{61}', '\u{72}'], '\u{22C6}', None),
        364 => (&['\u{63}', '\u{68}', '\u{65}', '\u{63}', '\u{6B}'], '\u{2713}', None),
        365 => (&['\u{63}', '\u{72}', '\u{6F}', '\u{73}', '\u{73}'], '\u{2717}', None),
        366 => (&['\u{6D}', '\u{61}', '\u{6C}', '\u{74}'], '\u{2720}', None),
        367 => (&['\u{73}', '\u{65}', '\u{78}', '\u{74}'], '\u{2736}', None),
        _ => (&[], ' ', None),
    }
}

pub open spec fn spec_entity_block_23(i: usize) -> (Seq<char>, Seq<char>) {
    match i {
        368 => (seq!['\u{70}', '\u{68}', '\u{6F}', '\u{6E}', '\u{65}', '\u{32}'], seq!['\u{260E}']),
        369 => (seq!['\u{66}', '\u{65}', '\u{6D}', '\u{61}', '\u{6C}', '\u{65}'], seq!['\u{2640}']),
        370 => (seq!['\u{6D}', '\u{61}', '\u{6C}', '\u{65}'], seq!['\u{2642}']),
        371 => (seq!['\u{6D}', '\u{75}', '\u{73}', '\u{69}', '\u{63}', '\u{61}', '\u{6C}', '\u{6E}', '\u{6F}', '\u{74}', '\u{65}'], seq!['\u{266A}']),
        372 => (seq!['\u{6D}', '\u{75}', '\u{73}', '\u{69}', '\u{63}', '\u{61}', '\u{6C}', '\u{6E}', '\u{6F}', '\u{74}', '\u{65}', '\u{73}'], seq!['\u{266B}']),
        373 => (seq!['\u{73}', '\u{75}', '\u{6E}'], seq!['\u{2600}']),
        374 => (seq!['\u{63}', '\u{6C}', '\u{6F}', '\u{75}', '\u{64}'], seq!['\u{2601}']),
        375 => (seq!['\u{75}', '\u{6D}', '\u{62}', '\u{72}', '\u{65}', '\u{6C}', '\u{6C}', '\u{61}'], seq!['\u{2602}']),
        376 => (seq!['\u{73}', '\u{6E}', '\u{6F}', '\u{77}', '\u{6D}', '\u{61}', '\u{6E}'], seq!['\u{2603}']),
        377 => (seq!['\u{63}', '\u{6F}', '\u{6D}', '\u{65}', '\u{74}'], seq!['\u{2604}']),
        378 => (seq!['\u{63}', '\u{68}', '\u{65}', '\u{63}', '\u{6B}', '\u{6D}', '\u{61}', '\u{72}', '\u{6B}'], seq!['\u{2713}']),
        379 => (seq!['\u{62}', '\u{61}', '\u{6C}', '\u{6C}', '\u{6F}', '\u{74}'], seq!['\u{2717}']),
        380 => (seq!['\u{68}', '\u{65}', '\u{61}', '\u{76}', '\u{79}', '\u{63}', '\u{68}', '\u{65}', '\u{63}', '\u{6B}'], seq!['\u{2714}']),
        381 => (seq!['\u{68}', '\u{65}', '\u{61}', '\u{76}', '\u{79}', '\u{63}', '\u{72}', '\u{6F}', '\u{73}', '\u{73}'], seq!['\u{2718}']),
        382 => (seq!['\u{41}', '\u{6F}', '\u{70}', '\u{66}'], seq!['\u{1D538}']),
        383 => (seq!['\u{42}', '\u{6F}', '\u{70}', '\u{66}'], seq!['\u{1D539}']),
        _ => (Seq::empty(), Seq::empty()),
    }
}

fn entity_block_23(i: usize) -> (r: (&'static [char], char, Option<char>))
    ensures
        r.0@ == spec_entity_block_23(i).0,
        spec_entity_block_23(i).1 == (match r.2 {
            Some(c2) => seq![r.1, c2],
            None => seq![r.1],
        }) || spec_entity_block_23(i).1.len() == 0,
{
    match i {
        368 => (&['\u{70}', '\u{68}', '\u{6F}', '\u{6E}', '\u{65}', '\u{32}'], '\u{260E}', None),
        369 => (&['\u{66}', '\u{65}', '\u{6D}', '\u{61}', '\u{6C}', '\u{65}'], '\u{2640}', None),
        370 => (&['\u{6D}', '\u{61}', '\u{6C}', '\u{65}'], '\u{2642}', None),
        371 => (&['\u{6D}', '\u{75}', '\u{73}', '\u{69}', '\u{63}', '\u{61}', '\u{6C}', '\u{6E}', '\u{6F}', '\u{74}', '\u{65}'], '\u{266A}', None),
        372 => (&['\u{6D}', '\u{75}', '\u{73}', '\u{69}', '\u{63}', '\u{61}', '\u{6C}', '\u{6E}', '\u{6F}', '\u{74}', '\u{65}', '\u{73}'], '\u{266B}', None),
        373 => (&['\u{73}', '\u{75}', '\u{6E}'], '\u{2600}', None),
        374 => (&['\u{63}', '\u{6C}', '\u{6F}', '\u{75}', '\u{64}'], '\u{2601}', None),
        375 => (&['\u{75}', '\u{6D}', '\u{62}', '\u{72}', '\u{65}', '\u{6C}', '\u{6C}', '\u{61}'], '\u{2602}', None),
        376 => (&['\u{73}', '\u{6E}', '\u{6F}', '\u{77}', '\u{6D}', '\u{61}', '\u{6E}'], '\u{2603}', None),
        377 => (&['\u{63}', '\u{6F}', '\u{6D}', '\u{65}', '\u{74}'], '\u{2604}', None),
        378 => (&['\u{63}', '\u{68}', '\u{65}', '\u{63}', '\u{6B}', '\u{6D}', '\u{61}', '\u{72}', '\u{6B}'], '\u{2713}', None),
        379 => (&['\u{62}', '\u{61}', '\u{6C}', '\u{6C}', '\u{6F}', '\u{74}'], '\u{2717}', None),
        380 => (&['\u{68}', '\u{65}', '\u{61}', '\u{76}', '\u{79}', '\u{63}', '\u{68}', '\u{65}', '\u{63}', '\u{6B}'], '\u{2714}', None),
        381 => (&['\u{68}', '\u{65}', '\u{61}', '\u{76}', '\u{79}', '\u{63}', '\u{72}', '\u{6F}', '\u{73}', '\u{73}'], '\u{2718}', None),
        382 => (&['\u{41}', '\u{6F}', '\u{70}', '\u{66}'], '\u{1D538}', None),
        383 => (&['\u{42}', '\u{6F}', '\u{70}', '\u{66}'], '\u{1D539}', None),
        _ => (&[], ' ', None),
    }
}

pub open spec fn spec_entity_block_24(i: usize) -> (Seq<char>, Seq<char>) {
    match i {
        384 => (seq!['\u{43}', '\u{6F}', '\u{70}', '\u{66}'], seq!['\u{2102}']),
        385 => (seq!['\u{44}', '\u{6F}', '\u{70}', '\u{66}'], seq!['\u{1D53B}']),
        386 => (seq!['\u{45}', '\u{6F}', '\u{70}', '\u{66}'], seq!['\u{1D53C}']),
        387 => (seq!['\u{46}', '\u{6F}', '\u{70}', '\u{66}'], seq!['\u{1D53D}']),
        388 => (seq!['\u{47}', '\u{6F}', '\u{70}', '\u{66}'], seq!['\u{1D53E}']),
        389 => (seq!['\u{48}', '\u{6F}', '\u{70}', '\u{66}'], seq!['\u{210D}']),
        390 => (seq!['\u{49}', '\u{6F}', '\u{70}', '\u{66}'], seq!['\u{1D540}']),
        391 => (seq!['\u{4A}', '\u{6F}', '\u{70}', '\u{66}'], seq!['\u{1D541}']),
        392 => (seq!['\u{4B}', '\u{6F}', '\u{70}', '\u{66}'], seq!['\u{1D542}']),
        393 => (seq!['\u{4C}', '\u{6F}', '\u{70}', '\u{66}'], seq!['\u{1D543}']),
        394 => (seq!['\u{4D}', '\u{6F}', '\u{70}', '\u{66}'], seq!['\u{1D544}']),
        395 => (seq!['\u{4E}', '\u{6F}', '\u{70}', '\u{66}'], seq!['\u{2115}']),
        396 => (seq!['\u{4F}', '\u{6F}', '\u{70}', '\u{66}'], seq!['\u{1D546}']),
        397 => (seq!['\u{50}', '\u{6F}', '\u{70}', '\u{66}'], seq!['\u{2119}']),
        398 => (seq!['\u{51}', '\u{6F}', '\u{70}', '\u{66}'], seq!['\u{211A}']),
        399 => (seq!['\u{52}', '\u{6F}', '\u{70}', '\u{66}'], seq!['\u{211D}']),
        _ => (Seq::empty(), Seq::empty()),
    }
}

fn entity_block_24(i: usize) -> (r: (&'static [char], char, Option<char>))
    ensures
        r.0@ == spec_entity_block_24(i).0,
        spec_entity_block_24(i).1 == (match r.2 {
            Some(c2) => seq![r.1, c2],
            None => seq![r.1],
        }) || spec_entity_block_24(i).1.len() == 0,
{
    match i {
        384 => (&['\u{43}', '\u{6F}', '\u{70}', '\u{66}'], '\u{2102}', None),
        385 => (&['\u{44}', '\u{6F}', '\u{70}', '\u{66}'], '\u{1D53B}', None),
        386 => (&['\u{45}', '\u{6F}', '\u{70}', '\u{66}'], '\u{1D53C}', None),
        387 => (&['\u{46}', '\u{6F}', '\u{70}', '\u{66}'], '\u{1D53D}', None),
        388 => (&['\u{47}', '\u{6F}', '\u{70}', '\u{66}'], '\u{1D53E}', None),
        389 => (&['\u{48}', '\u{6F}', '\u{70}', '\u{66}'], '\u{210D}', None),
        390 => (&['\u{49}', '\u{6F}', '\u{70}', '\u{66}'], '\u{1D540}', None),
        391 => (&['\u{4A}', '\u{6F}', '\u{70}', '\u{66}'], '\u{1D541}', None),
        392 => (&['\u{4B}', '\u{6F}', '\u{70}', '\u{66}'], '\u{1D542}', None),
        393 => (&['\u{4C}', '\u{6F}', '\u{70}', '\u{66}'], '\u{1D543}', None),
        394 => (&['\u{4D}', '\u{6F}', '\u{70}', '\u{66}'], '\u{1D544}', None),
        395 => (&['\u{4E}', '\u{6F}', '\u{70}', '\u{66}'], '\u{2115}', None),
        396 => (&['\u{4F}', '\u{6F}', '\u{70}', '\u{66}'], '\u{1D546}', None),
        397 => (&['\u{50}', '\u{6F}', '\u{70}', '\u{66}'], '\u{2119}', None),
        398 => (&['\u{51}', '\u{6F}', '\u{70}', '\u{66}'], '\u{211A}', None),
        399 => (&['\u{52}', '\u{6F}', '\u{70}', '\u{66}'], '\u{211D}', None),
        _ => (&[], ' ', None),
    }
}

pub open spec fn spec_entity_block_25(i: usize) -> (Seq<char>, Seq<char>) {
    match i {
        400 => (seq!['\u{53}', '\u{6F}', '\u{70}', '\u{66}'], seq!['\u{1D54A}']),
        401 => (seq!['\u{54}', '\u{6F}', '\u{70}', '\u{66}'], seq!['\u{1D54B}']),
        402 => (seq!['\u{55}', '\u{6F}', '\u{70}', '\u{66}'], seq!['\u{1D54C}']),
        403 => (seq!['\u{56}', '\u{6F}', '\u{70}', '\u{66}'], seq!['\u{1D54D}']),
        404 => (seq!['\u{57}', '\u{6F}', '\u{70}', '\u{66}'], seq!['\u{1D54E}']),
        405 => (seq!['\u{58}', '\u{6F}', '\u{70}', '\u{66}'], seq!['\u{1D54F}']),
        406 => (seq!['\u{59}', '\u{6F}', '\u{70}', '\u{66}'], seq!['\u{1D550}']),
        407 => (seq!['\u{5A}', '\u{6F}', '\u{70}', '\u{66}'], seq!['\u{2124}']),
        408 => (seq!['\u{61}', '\u{6F}', '\u{70}', '\u{66}'], seq!['\u{1D552}']),
        409 => (seq!['\u{62}', '\u{6F}', '\u{70}', '\u{66}'], seq!['\u{1D553}']),
        410 => (seq!['\u{63}', '\u{6F}', '\u{70}', '\u{66}'], seq!['\u{1D554}']),
        411 => (seq!['\u{64}', '\u{6F}', '\u{70}', '\u{66}'], seq!['\u{1D555}']),
        412 => (seq!['\u{65}', '\u{6F}', '\u{70}', '\u{66}'], seq!['\u{1D556}']),
        413 => (seq!['\u{66}', '\u{6F}', '\u{70}', '\u{66}'], seq!['\u{1D557}']),
        414 => (seq!['\u{67}', '\u{6F}', '\u{70}', '\u{66}'], seq!['\u{1D558}']),
        415 => (seq!['\u{68}', '\u{6F}', '\u{70}', '\u{66}'], seq!['\u{1D559}']),
        _ => (Seq::empty(), Seq::empty()),
    }
}

fn entity_block_25(i: usize) -> (r: (&'static [char], char, Option<char>))
    ensures
        r.0@ == spec_entity_block_25(i).0,
        spec_entity_block_25(i).1 == (match r.2 {
            Some(c2) => seq![r.1, c2],
            None => seq![r.1],
        }) || spec_entity_block_25(i).1.len() == 0,
{
    match i {
        400 => (&['\u{53}', '\u{6F}', '\u{70}', '\u{66}'], '\u{1D54A}', None),
        401 => (&['\u{54}', '\u{6F}', '\u{70}', '\u{66}'], '\u{1D54B}', None),
        402 => (&['\u{55}', '\u{6F}', '\u{70}', '\u{66}'], '\u{1D54C}', None),
        403 => (&['\u{56}', '\u{6F}', '\u{70}', '\u{66}'], '\u{1D54D}', None),
        404 => (&['\u{57}', '\u{6F}', '\u{70}', '\u{66}'], '\u{1D54E}', None),
        405 => (&['\u{58}', '\u{6F}', '\u{70}', '\u{66}'], '\u{1D54F}', None),
        406 => (&['\u{59}', '\u{6F}', '\u{70}', '\u{66}'], '\u{1D550}', None),
        407 => (&['\u{5A}', '\u{6F}', '\u{70}', '\u{66}'], '\u{2124}', None),
        408 => (&['\u{61}', '\u{6F}', '\u{70}', '\u{66}'], '\u{1D552}', None),
        409 => (&['\u{62}', '\u{6F}', '\u{70}', '\u{66}'], '\u{1D553}', None),
        410 => (&['\u{63}', '\u{6F}', '\u{70}', '\u{66}'], '\u{1D554}', None),
        411 => (&['\u{64}', '\u{6F}', '\u{70}', '\u{66}'], '\u{1D555}', None),
        412 => (&['\u{65}', '\u{6F}', '\u{70}', '\u{66}'], '\u{1D556}', None),
        413 => (&['\u{66}', '\u{6F}', '\u{70}', '\u{66}'], '\u{1D557}', None),
        414 => (&['\u{67}', '\u{6F}', '\u{70}', '\u{66}'], '\u{1D558}', None),
        415 => (&['\u{68}', '\u{6F}', '\u{70}', '\u{66}'], '\u{1D559}', None),
        _ => (&[], ' ', None),
    }
}

pub open spec fn spec_entity_block_26(i: usize) -> (Seq<char>, Seq<char>) {
    match i {
        416 => (seq!['\u{69}', '\u{6F}', '\u{70}', '\u{66}'], seq!['\u{1D55A}']),
        417 => (seq!['\u{6A}', '\u{6F}', '\u{70}', '\u{66}'], seq!['\u{1D55B}']),
        418 => (seq!['\u{6B}', '\u{6F}', '\u{70}', '\u{66}'], seq!['\u{1D55C}']),
        419 => (seq!['\u{6C}', '\u{6F}', '\u{70}', '\u{66}'], seq!['\u{1D55D}']),
        420 => (seq!['\u{6D}', '\u{6F}', '\u{70}', '\u{66}'], seq!['\u{1D55E}']),
        421 => (seq!['\u{6E}', '\u{6F}', '\u{70}', '\u{66}'], seq!['\u{1D55F}']),
        422 => (seq!['\u{6F}', '\u{6F}', '\u{70}', '\u{66}'], seq!['\u{1D560}']),
        423 => (seq!['\u{70}', '\u{6F}', '\u{70}', '\u{66}'], seq!['\u{1D561}']),
        424 => (seq!['\u{71}', '\u{6F}', '\u{70}', '\u{66}'], seq!['\u{1D562}']),
        425 => (seq!['\u{72}', '\u{6F}', '\u{70}', '\u{66}'], seq!['\u{1D563}']),
        426 => (seq!['\u{73}', '\u{6F}', '\u{70}', '\u{66}'], seq!['\u{1D564}']),
        427 => (seq!['\u{74}', '\u{6F}', '\u{70}', '\u{66}'], seq!['\u{1D565}']),
        428 => (seq!['\u{75}', '\u{6F}', '\u{70}', '\u{66}'], seq!['\u{1D566}']),
        429 => (seq!['\u{76}', '\u{6F}', '\u{70}', '\u{66}'], seq!['\u{1D567}']),
        430 => (seq!['\u{77}', '\u{6F}', '\u{70}', '\u{66}'], seq!['\u{1D568}']),
        431 => (seq!['\u{78}', '\u{6F}', '\u{70}', '\u{66}'], seq!['\u{1D569}']),
        _ => (Seq::empty(), Seq::empty()),
    }
}

fn entity_block_26(i: usize) -> (r: (&'static [char], char, Option<char>))
    ensures
        r.0@ == spec_entity_block_26(i).0,
        spec_entity_block_26(i).1 == (match r.2 {
            Some(c2) => seq![r.1, c2],
            None => seq![r.1],
        }) || spec_entity_block_26(i).1.len() == 0,
{
    match i {
        416 => (&['\u{69}', '\u{6F}', '\u{70}', '\u{66}'], '\u{1D55A}', None),
        417 => (&['\u{6A}', '\u{6F}', '\u{70}', '\u{66}'], '\u{1D55B}', None),
        418 => (&['\u{6B}', '\u{6F}', '\u{70}', '\u{66}'], '\u{1D55C}', None),
        419 => (&['\u{6C}', '\u{6F}', '\u{70}', '\u{66}'], '\u{1D55D}', None),
        420 => (&['\u{6D}', '\u{6F}', '\u{70}', '\u{66}'], '\u{1D55E}', None),
        421 => (&['\u{6E}', '\u{6F}', '\u{70}', '\u{66}'], '\u{1D55F}', None),
        422 => (&['\u{6F}', '\u{6F}', '\u{70}', '\u{66}'], '\u{1D560}', None),
        423 => (&['\u{70}', '\u{6F}', '\u{70}', '\u{66}'], '\u{1D561}', None),
        424 => (&['\u{71}', '\u{6F}', '\u{70}', '\u{66}'], '\u{1D562}', None),
        425 => (&['\u{72}', '\u{6F}', '\u{70}', '\u{66}'], '\u{1D563}', None),
        426 => (&['\u{73}', '\u{6F}', '\u{70}', '\u{66}'], '\u{1D564}', None),
        427 => (&['\u{74}', '\u{6F}', '\u{70}', '\u{66}'], '\u{1D565}', None),
        428 => (&['\u{75}', '\u{6F}', '\u{70}', '\u{66}'], '\u{1D566}', None),
        429 => (&['\u{76}', '\u{6F}', '\u{70}', '\u{66}'], '\u{1D567}', None),
        430 => (&['\u{77}', '\u{6F}', '\u{70}', '\u{66}'], '\u{1D568}', None),
        431 => (&['\u{78}', '\u{6F}', '\u{70}', '\u{66}'], '\u{1D569}', None),
        _ => (&[], ' ', None),
    }
}

pub open spec fn spec_entity_block_27(i: usize) -> (Seq<char>, Seq<char>) {
    match i {
        432 => (seq!['\u{79}', '\u{6F}', '\u{70}', '\u{66}'], seq!['\u{1D56A}']),
        433 => (seq!['\u{7A}', '\u{6F}', '\u{70}', '\u{66}'], seq!['\u{1D56B}']),
        434 => (seq!['\u{41}', '\u{66}', '\u{72}'], seq!['\u{1D504}']),
        435 => (seq!['\u{42}', '\u{66}', '\u{72}'], seq!['\u{1D505}']),
        436 => (seq!['\u{43}', '\u{66}', '\u{72}'], seq!['\u{212D}']),
        437 => (seq!['\u{44}', '\u{66}', '\u{72}'], seq!['\u{1D507}']),
        438 => (seq!['\u{45}', '\u{66}', '\u{72}'], seq!['\u{1D508}']),
        439 => (seq!['\u{46}', '\u{66}', '\u{72}'], seq!['\u{1D509}']),
        440 => (seq!['\u{47}', '\u{66}', '\u{72}'], seq!['\u{1D50A}']),
        441 => (seq!['\u{48}', '\u{66}', '\u{72}'], seq!['\u{210C}']),
        442 => (seq!['\u{49}', '\u{66}', '\u{72}'], seq!['\u{2111}']),
        443 => (seq!['\u{4A}', '\u{66}', '\u{72}'], seq!['\u{1D50D}']),
        444 => (seq!['\u{4B}', '\u{66}', '\u{72}'], seq!['\u{1D50E}']),
        445 => (seq!['\u{4C}', '\u{66}', '\u{72}'], seq!['\u{1D50F}']),
        446 => (seq!['\u{4D}', '\u{66}', '\u{72}'], seq!['\u{1D510}']),
        447 => (seq!['\u{4E}', '\u{66}', '\u{72}'], seq!['\u{1D511}']),
        _ => (Seq::empty(), Seq::empty()),
    }
}

fn entity_block_27(i: usize) -> (r: (&'static [char], char, Option<char>))
    ensures
        r.0@ == spec_entity_block_27(i).0,
        spec_entity_block_27(i).1 == (match r.2 {
            Some(c2) => seq![r.1, c2],
            None => seq![r.1],
        }) || spec_entity_block_27(i).1.len() == 0,
{
    match i {
        432 => (&['\u{79}', '\u{6F}', '\u{70}', '\u{66}'], '\u{1D56A}', None),
        433 => (&['\u{7A}', '\u{6F}', '\u{70}', '\u{66}'], '\u{1D56B}', None),
        434 => (&['\u{41}', '\u{66}', '\u{72}'], '\u{1D504}', None),
        435 => (&['\u{42}', '\u{66}', '\u{72}'], '\u{1D505}', None),
        436 => (&['\u{43}', '\u{66}', '\u{72}'], '\u{212D}', None),
        437 => (&['\u{44}', '\u{66}', '\u{72}'], '\u{1D507}', None),
        438 => (&['\u{45}', '\u{66}', '\u{72}'], '\u{1D508}', None),
        439 => (&['\u{46}', '\u{66}', '\u{72}'], '\u{1D509}', None),
        440 => (&['\u{47}', '\u{66}', '\u{72}'], '\u{1D50A}', None),
        441 => (&['\u{48}', '\u{66}', '\u{72}'], '\u{210C}', None),
        442 => (&['\u{49}', '\u{66}', '\u{72}'], '\u{2111}', None),
        443 => (&['\u{4A}', '\u{66}', '\u{72}'], '\u{1D50D}', None),
        444 => (&['\u{4B}', '\u{66}', '\u{72}'], '\u{1D50E}', None),
        445 => (&['\u{4C}', '\u{66}', '\u{72}'], '\u{1D50F}', None),
        446 => (&['\u{4D}', '\u{66}', '\u{72}'], '\u{1D510}', None),
        447 => (&['\u{4E}', '\u{66}', '\u{72}'], '\u{1D511}', None),
        _ => (&[], ' ', None),
    }
}

pub open spec fn spec_entity_block_28(i: usize) -> (Seq<char>, Seq<char>) {
    match i {
        448 => (seq!['\u{4F}', '\u{66}', '\u{72}'], seq!['\u{1D512}']),
        449 => (seq!['\u{50}', '\u{66}', '\u{72}'], seq!['\u{1D513}']),
        450 => (seq!['\u{51}', '\u{66}', '\u{72}'], seq!['\u{1D514}']),
        451 => (seq!['\u{52}', '\u{66}', '\u{72}'], seq!['\u{211C}']),
        452 => (seq!['\u{53}', '\u{66}', '\u{72}'], seq!['\u{1D516}']),
        453 => (seq!['\u{54}', '\u{66}', '\u{72}'], seq!['\u{1D517}']),
        454 => (seq!['\u{55}', '\u{66}', '\u{72}'], seq!['\u{1D518}']),
        455 => (seq!['\u{56}', '\u{66}', '\u{72}'], seq!['\u{1D519}']),
        456 => (seq!['\u{57}', '\u{66}', '\u{72}'], seq!['\u{1D51A}']),
        457 => (seq!['\u{58}', '\u{66}', '\u{72}'], seq!['\u{1D51B}']),
        458 => (seq!['\u{59}', '\u{66}', '\u{72}'], seq!['\u{1D51C}']),
        459 => (seq!['\u{5A}', '\u{66}', '\u{72}'], seq!['\u{2128}']),
        460 => (seq!['\u{41}', '\u{73}', '\u{63}', '\u{72}'], seq!['\u{1D49C}']),
        461 => (seq!['\u{43}', '\u{73}', '\u{63}', '\u{72}'], seq!['\u{1D49E}']),
        462 => (seq!['\u{44}', '\u{73}', '\u{63}', '\u{72}'], seq!['\u{1D49F}']),
        463 => (seq!['\u{47}', '\u{73}', '\u{63}', '\u{72}'], seq!['\u{1D4A2}']),
        _ => (Seq::empty(), Seq::empty()),
    }
}

fn entity_block_28(i: usize) -> (r: (&'static [char], char, Option<char>))
    ensures
        r.0@ == spec_entity_block_28(i).0,
        spec_entity_block_28(i).1 == (match r.2 {
            Some(c2) => seq![r.1, c2],
            None => seq![r.1],
        }) || spec_entity_block_28(i).1.len() == 0,
{
    match i {
        448 => (&['\u{4F}', '\u{66}', '\u{72}'], '\u{1D512}', None),
        449 => (&['\u{50}', '\u{66}', '\u{72}'], '\u{1D513}', None),
        450 => (&['\u{51}', '\u{66}', '\u{72}'], '\u{1D514}', None),
        451 => (&['\u{52}', '\u{66}', '\u{72}'], '\u{211C}', None),
        452 => (&['\u{53}', '\u{66}', '\u{72}'], '\u{1D516}', None),
        453 => (&['\u{54}', '\u{66}', '\u{72}'], '\u{1D517}', None),
        454 => (&['\u{55}', '\u{66}', '\u{72}'], '\u{1D518}', None),
        455 => (&['\u{56}', '\u{66}', '\u{72}'], '\u{1D519}', None),
        456 => (&['\u{57}', '\u{66}', '\u{72}'], '\u{1D51A}', None),
        457 => (&['\u{58}', '\u{66}', '\u{72}'], '\u{1D51B}', None),
        458 => (&['\u{59}', '\u{66}', '\u{72}'], '\u{1D51C}', None),
        459 => (&['\u{5A}', '\u{66}', '\u{72}'], '\u{2128}', None),
        460 => (&['\u{41}', '\u{73}', '\u{63}', '\u{72}'], '\u{1D49C}', None),
        461 => (&['\u{43}', '\u{73}', '\u{63}', '\u{72}'], '\u{1D49E}', None),
        462 => (&['\u{44}', '\u{73}', '\u{63}', '\u{72}'], '\u{1D49F}', None),
        463 => (&['\u{47}', '\u{73}', '\u{63}', '\u{72}'], '\u{1D4A2}', None),
        _ => (&[], ' ', None),
    }
}

pub open spec fn spec_entity_block_29(i: usize) -> (Seq<char>, Seq<char>) {
    match i {
        464 => (seq!['\u{4A}', '\u{73}', '\u{63}', '\u{72}'], seq!['\u{1D4A5}']),
        465 => (seq!['\u{4B}', '\u{73}', '\u{63}', '\u{72}'], seq!['\u{1D4A6}']),
        466 => (seq!['\u{4E}', '\u{73}', '\u{63}', '\u{72}'], seq!['\u{1D4A9}']),
        467 => (seq!['\u{4F}', '\u{73}', '\u{63}', '\u{72}'], seq!['\u{1D4AA}']),
        468 => (seq!['\u{50}', '\u{73}', '\u{63}', '\u{72}'], seq!['\u{1D4AB}']),
        469 => (seq!['\u{51}', '\u{73}', '\u{63}', '\u{72}'], seq!['\u{1D4AC}']),
        470 => (seq!['\u{53}', '\u{73}', '\u{63}', '\u{72}'], seq!['\u{1D4AE}']),
        471 => (seq!['\u{54}', '\u{73}', '\u{63}', '\u{72}'], seq!['\u{1D4AF}']),
        472 => (seq!['\u{55}', '\u{73}', '\u{63}', '\u{72}'], seq!['\u{1D4B0}']),
        473 => (seq!['\u{56}', '\u{73}', '\u{63}', '\u{72}'], seq!['\u{1D4B1}']),
        474 => (seq!['\u{57}', '\u{73}', '\u{63}', '\u{72}'], seq!['\u{1D4B2}']),
        475 => (seq!['\u{58}', '\u{73}', '\u{63}', '\u{72}'], seq!['\u{1D4B3}']),
        476 => (seq!['\u{59}', '\u{73}', '\u{63}', '\u{72}'], seq!['\u{1D4B4}']),
        477 => (seq!['\u{5A}', '\u{73}', '\u{63}', '\u{72}'], seq!['\u{1D4B5}']),
        478 => (seq!['\u{61}', '\u{73}', '\u{63}', '\u{72}'], seq!['\u{1D4B6}']),
        479 => (seq!['\u{62}', '\u{73}', '\u{63}', '\u{72}'], seq!['\u{1D4B7}']),
        _ => (Seq::empty(), Seq::empty()),
    }
}

fn entity_block_29(i: usize) -> (r: (&'static [char], char, Option<char>))
    ensures
        r.0@ == spec_entity_block_29(i).0,
        spec_entity_block_29(i).1 == (match r.2 {
            Some(c2) => seq![r.1, c2],
            None => seq![r.1],
        }) || spec_entity_block_29(i).1.len() == 0,
{
    match i {
        464 => (&['\u{4A}', '\u{73}', '\u{63}', '\u{72}'], '\u{1D4A5}', None),
        465 => (&['\u{4B}', '\u{73}', '\u{63}', '\u{72}'], '\u{1D4A6}', None),
        466 => (&['\u{4E}', '\u{73}', '\u{63}', '\u{72}'], '\u{1D4A9}', None),
        467 => (&['\u{4F}', '\u{73}', '\u{63}', '\u{72}'], '\u{1D4AA}', None),
        468 => (&['\u{50}', '\u{73}', '\u{63}', '\u{72}'], '\u{1D4AB}', None),
        469 => (&['\u{51}', '\u{73}', '\u{63}', '\u{72}'], '\u{1D4AC}', None),
        470 => (&['\u{53}', '\u{73}', '\u{63}', '\u{72}'], '\u{1D4AE}', None),
        471 => (&['\u{54}', '\u{73}', '\u{63}', '\u{72}'], '\u{1D4AF}', None),
        472 => (&['\u{55}', '\u{73}', '\u{63}', '\u{72}'], '\u{1D4B0}', None),
        473 => (&['\u{56}', '\u{73}', '\u{63}', '\u{72}'], '\u{1D4B1}', None),
        474 => (&['\u{57}', '\u{73}', '\u{63}', '\u{72}'], '\u{1D4B2}', None),
        475 => (&['\u{58}', '\u{73}', '\u{63}', '\u{72}'], '\u{1D4B3}', None),
        476 => (&['\u{59}', '\u{73}', '\u{63}', '\u{72}'], '\u{1D4B4}', None),
        477 => (&['\u{5A}', '\u{73}', '\u{63}', '\u{72}'], '\u{1D4B5}', None),
        478 => (&['\u{61}', '\u{73}', '\u{63}', '\u{72}'], '\u{1D4B6}', None),
        479 => (&['\u{62}', '\u{73}', '\u{63}', '\u{72}'], '\u{1D4B7}', None),
        _ => (&[], ' ', None),
    }
}

pub open spec fn spec_entity_block_30(i: usize) -> (Seq<char>, Seq<char>) {
    match i {
        480 => (seq!['\u{63}', '\u{73}', '\u{63}', '\u{72}'], seq!['\u{1D4B8}']),
        481 => (seq!['\u{64}', '\u{73}', '\u{63}', '\u{72}'], seq!['\u{1D4B9}']),
        482 => (seq!['\u{66}', '\u{73}', '\u{63}', '\u{72}'], seq!['\u{1D4BB}']),
        483 => (seq!['\u{68}', '\u{73}', '\u{63}', '\u{72}'], seq!['\u{1D4BD}']),
        484 => (seq!['\u{69}', '\u{73}', '\u{63}', '\u{72}'], seq!['\u{1D4BE}']),
        485 => (seq!['\u{6A}', '\u{73}', '\u{63}', '\u{72}'], seq!['\u{1D4BF}']),
        486 => (seq!['\u{6B}', '\u{73}', '\u{63}', '\u{72}'], seq!['\u{1D4C0}']),
        487 => (seq!['\u{6C}', '\u{73}', '\u{63}', '\u{72}'], seq!['\u{1D4C1}']),
        488 => (seq!['\u{6D}', '\u{73}', '\u{63}', '\u{72}'], seq!['\u{1D4C2}']),
        489 => (seq!['\u{6E}', '\u{73}', '\u{63}', '\u{72}'], seq!['\u{1D4C3}']),
        490 => (seq!['\u{70}', '\u{73}', '\u{63}', '\u{72}'], seq!['\u{1D4C5}']),
        491 => (seq!['\u{71}', '\u{73}', '\u{63}', '\u{72}'], seq!['\u{1D4C6}']),
        492 => (seq!['\u{72}', '\u{73}', '\u{63}', '\u{72}'], seq!['\u{1D4C7}']),
        493 => (seq!['\u{73}', '\u{73}', '\u{63}', '\u{72}'], seq!['\u{1D4C8}']),
        494 => (seq!['\u{74}', '\u{73}', '\u{63}', '\u{72}'], seq!['\u{1D4C9}']),
        495 => (seq!['\u{75}', '\u{73}', '\u{63}', '\u{72}'], seq!['\u{1D4CA}']),
        _ => (Seq::empty(), Seq::empty()),
    }
}

fn entity_block_30(i: usize) -> (r: (&'static [char], char, Option<char>))
    ensures
        r.0@ == spec_entity_block_30(i).0,
        spec_entity_block_30(i).1 == (match r.2 {
            Some(c2) => seq![r.1, c2],
            None => seq![r.1],
        }) || spec_entity_block_30(i).1.len() == 0,
{
    match i {
        480 => (&['\u{63}', '\u{73}', '\u{63}', '\u{72}'], '\u{1D4B8}', None),
        481 => (&['\u{64}', '\u{73}', '\u{63}', '\u{72}'], '\u{1D4B9}', None),
        482 => (&['\u{66}', '\u{73}', '\u{63}', '\u{72}'], '\u{1D4BB}', None),
        483 => (&['\u{68}', '\u{73}', '\u{63}', '\u{72}'], '\u{1D4BD}', None),
        484 => (&['\u{69}', '\u{73}', '\u{63}', '\u{72}'], '\u{1D4BE}', None),
        485 => (&['\u{6A}', '\u{73}', '\u{63}', '\u{72}'], '\u{1D4BF}', None),
        486 => (&['\u{6B}', '\u{73}', '\u{63}', '\u{72}'], '\u{1D4C0}', None),
        487 => (&['\u{6C}', '\u{73}', '\u{63}', '\u{72}'], '\u{1D4C1}', None),
        488 => (&['\u{6D}', '\u{73}', '\u{63}', '\u{72}'], '\u{1D4C2}', None),
        489 => (&['\u{6E}', '\u{73}', '\u{63}', '\u{72}'], '\u{1D4C3}', None),
        490 => (&['\u{70}', '\u{73}', '\u{63}', '\u{72}'], '\u{1D4C5}', None),
        491 => (&['\u{71}', '\u{73}', '\u{63}', '\u{72}'], '\u{1D4C6}', None),
        492 => (&['\u{72}', '\u{73}', '\u{63}', '\u{72}'], '\u{1D4C7}', None),
        493 => (&['\u{73}', '\u{73}', '\u{63}', '\u{72}'], '\u{1D4C8}', None),
        494 => (&['\u{74}', '\u{73}', '\u{63}', '\u{72}'], '\u{1D4C9}', None),
        495 => (&['\u{75}', '\u{73}', '\u{63}', '\u{72}'], '\u{1D4CA}', None),
        _ => (&[], ' ', None),
    }
}

pub open spec fn spec_entity_block_31(i: usize) -> (Seq<char>, Seq<char>) {
    match i {
        496 => (seq!['\u{76}', '\u{73}', '\u{63}', '\u{72}'], seq!['\u{1D4CB}']),
        497 => (seq!['\u{77}', '\u{73}', '\u{63}', '\u{72}'], seq!['\u{1D4CC}']),
        498 => (seq!['\u{78}', '\u{73}', '\u{63}', '\u{72}'], seq!['\u{1D4CD}']),
        499 => (seq!['\u{79}', '\u{73}', '\u{63}', '\u{72}'], seq!['\u{1D4CE}']),
        500 => (seq!['\u{7A}', '\u{73}', '\u{63}', '\u{72}'], seq!['\u{1D4CF}']),
        501 => (seq!['\u{41}', '\u{62}', '\u{72}', '\u{65}', '\u{76}', '\u{65}'], seq!['\u{102}']),
        502 => (seq!['\u{61}', '\u{62}', '\u{72}', '\u{65}', '\u{76}', '\u{65}'], seq!['\u{103}']),
        503 => (seq!['\u{41}', '\u{6F}', '\u{67}', '\u{6F}', '\u{6E}'], seq!['\u{104}']),
        504 => (seq!['\u{61}', '\u{6F}', '\u{67}', '\u{6F}', '\u{6E}'], seq!['\u{105}']),
        505 => (seq!['\u{43}', '\u{61}', '\u{63}', '\u{75}', '\u{74}', '\u{65}'], seq!['\u{106}']),
        506 => (seq!['\u{63}', '\u{61}', '\u{63}', '\u{75}', '\u{74}', '\u{65}'], seq!['\u{107}']),
        507 => (seq!['\u{43}', '\u{63}', '\u{69}', '\u{72}', '\u{63}'], seq!['\u{108}']),
        508 => (seq!['\u{63}', '\u{63}', '\u{69}', '\u{72}', '\u{63}'], seq!['\u{109}']),
        509 => (seq!['\u{43}', '\u{64}', '\u{6F}', '\u{74}'], seq!['\u{10A}']),
        510 => (seq!['\u{63}', '\u{64}', '\u{6F}', '\u{74}'], seq!['\u{10B}']),
        511 => (seq!['\u{45}', '\u{63}', '\u{61}', '\u{72}', '\u{6F}', '\u{6E}'], seq!['\u{11A}']),
        _ => (Seq::empty(), Seq::empty()),
    }
}

fn entity_block_31(i: usize) -> (r: (&'static [char], char, Option<char>))
    ensures
        r.0@ == spec_entity_block_31(i).0,
        spec_entity_block_31(i).1 == (match r.2 {
            Some(c2) => seq![r.1, c2],
            None => seq![r.1],
        }) || spec_entity_block_31(i).1.len() == 0,
{
    match i {
        496 => (&['\u{76}', '\u{73}', '\u{63}', '\u{72}'], '\u{1D4CB}', None),
        497 => (&['\u{77}', '\u{73}', '\u{63}', '\u{72}'], '\u{1D4CC}', None),
        498 => (&['\u{78}', '\u{73}', '\u{63}', '\u{72}'], '\u{1D4CD}', None),
        499 => (&['\u{79}', '\u{73}', '\u{63}', '\u{72}'], '\u{1D4CE}', None),
        500 => (&['\u{7A}', '\u{73}', '\u{63}', '\u{72}'], '\u{1D4CF}', None),
        501 => (&['\u{41}', '\u{62}', '\u{72}', '\u{65}', '\u{76}', '\u{65}'], '\u{102}', None),
        502 => (&['\u{61}', '\u{62}', '\u{72}', '\u{65}', '\u{76}', '\u{65}'], '\u{103}', None),
        503 => (&['\u{41}', '\u{6F}', '\u{67}', '\u{6F}', '\u{6E}'], '\u{104}', None),
        504 => (&['\u{61}', '\u{6F}', '\u{67}', '\u{6F}', '\u{6E}'], '\u{105}', None),
        505 => (&['\u{43}', '\u{61}', '\u{63}', '\u{75}', '\u{74}', '\u{65}'], '\u{106}', None),
        506 => (&['\u{63}', '\u{61}', '\u{63}', '\u{75}', '\u{74}', '\u{65}'], '\u{107}', None),
        507 => (&['\u{43}', '\u{63}', '\u{69}', '\u{72}', '\u{63}'], '\u{108}', None),
        508 => (&['\u{63}', '\u{63}', '\u{69}', '\u{72}', '\u{63}'], '\u{109}', None),
        509 => (&['\u{43}', '\u{64}', '\u{6F}', '\u{74}'], '\u{10A}', None),
        510 => (&['\u{63}', '\u{64}', '\u{6F}', '\u{74}'], '\u{10B}', None),
        511 => (&['\u{45}', '\u{63}', '\u{61}', '\u{72}', '\u{6F}', '\u{6E}'], '\u{11A}', None),
        _ => (&[], ' ', None),
    }
}

pub open spec fn spec_entity_block_32(i: usize) -> (Seq<char>, Seq<char>) {
    match i {
        512 => (seq!['\u{65}', '\u{63}', '\u{61}', '\u{72}', '\u{6F}', '\u{6E}'], seq!['\u{11B}']),
        513 => (seq!['\u{45}', '\u{64}', '\u{6F}', '\u{74}'], seq!['\u{116}']),
        514 => (seq!['\u{65}', '\u{64}', '\u{6F}', '\u{74}'], seq!['\u{117}']),
        515 => (seq!['\u{45}', '\u{6F}', '\u{67}', '\u{6F}', '\u{6E}'], seq!['\u{118}']),
        516 => (seq!['\u{65}', '\u{6F}', '\u{67}', '\u{6F}', '\u{6E}'], seq!['\u{119}']),
        517 => (seq!['\u{47}', '\u{62}', '\u{72}', '\u{65}', '\u{76}', '\u{65}'], seq!['\u{11E}']),
        518 => (seq!['\u{67}', '\u{62}', '\u{72}', '\u{65}', '\u{76}', '\u{65}'], seq!['\u{11F}']),
        519 => (seq!['\u{47}', '\u{63}', '\u{65}', '\u{64}', '\u{69}', '\u{6C}'], seq!['\u{122}']),
        520 => (seq!['\u{48}', '\u{63}', '\u{69}', '\u{72}', '\u{63}'], seq!['\u{124}']),
        521 => (seq!['\u{68}', '\u{63}', '\u{69}', '\u{72}', '\u{63}'], seq!['\u{125}']),
        522 => (seq!['\u{48}', '\u{73}', '\u{74}', '\u{72}', '\u{6F}', '\u{6B}'], seq!['\u{126}']),
        523 => (seq!['\u{68}', '\u{73}', '\u{74}', '\u{72}', '\u{6F}', '\u{6B}'], seq!['\u{127}']),
        524 => (seq!['\u{49}', '\u{74}', '\u{69}', '\u{6C}', '\u{64}', '\u{65}'], seq!['\u{128}']),
        525 => (seq!['\u{69}', '\u{74}', '\u{69}', '\u{6C}', '\u{64}', '\u{65}'], seq!['\u{129}']),
        526 => (seq!['\u{49}', '\u{6D}', '\u{61}', '\u{63}', '\u{72}'], seq!['\u{12A}']),
        527 => (seq!['\u{69}', '\u{6D}', '\u{61}', '\u{63}', '\u{72}'], seq!['\u{12B}']),
        _ => (Seq::empty(), Seq::empty()),
    }
}

fn entity_block_32(i: usize) -> (r: (&'static [char], char, Option<char>))
    ensures
        r.0@ == spec_entity_block_32(i).0,
        spec_entity_block_32(i).1 == (match r.2 {
            Some(c2) => seq![r.1, c2],
            None => seq![r.1],
        }) || spec_entity_block_32(i).1.len() == 0,
{
    match i {
        512 => (&['\u{65}', '\u{63}', '\u{61}', '\u{72}', '\u{6F}', '\u{6E}'], '\u{11B}', None),
        513 => (&['\u{45}', '\u{64}', '\u{6F}', '\u{74}'], '\u{116}', None),
        514 => (&['\u{65}', '\u{64}', '\u{6F}', '\u{74}'], '\u{117}', None),
        515 => (&['\u{45}', '\u{6F}', '\u{67}', '\u{6F}', '\u{6E}'], '\u{118}', None),
        516 => (&['\u{65}', '\u{6F}', '\u{67}', '\u{6F}', '\u{6E}'], '\u{119}', None),
        517 => (&['\u{47}', '\u{62}', '\u{72}', '\u{65}', '\u{76}', '\u{65}'], '\u{11E}', None),
        518 => (&['\u{67}', '\u{62}', '\u{72}', '\u{65}', '\u{76}', '\u{65}'], '\u{11F}', None),
        519 => (&['\u{47}', '\u{63}', '\u{65}', '\u{64}', '\u{69}', '\u{6C}'], '\u{122}', None),
        520 => (&['\u{48}', '\u{63}', '\u{69}', '\u{72}', '\u{63}'], '\u{124}', None),
        521 => (&['\u{68}', '\u{63}', '\u{69}', '\u{72}', '\u{63}'], '\u{125}', None),
        522 => (&['\u{48}', '\u{73}', '\u{74}', '\u{72}', '\u{6F}', '\u{6B}'], '\u{126}', None),
        523 => (&['\u{68}', '\u{73}', '\u{74}', '\u{72}', '\u{6F}', '\u{6B}'], '\u{127}', None),
        524 => (&['\u{49}', '\u{74}', '\u{69}', '\u{6C}', '\u{64}', '\u{65}'], '\u{128}', None),
        525 => (&['\u{69}', '\u{74}', '\u{69}', '\u{6C}', '\u{64}', '\u{65}'], '\u{129}', None),
        526 => (&['\u{49}', '\u{6D}', '\u{61}', '\u{63}', '\u{72}'], '\u{12A}', None),
        527 => (&['\u{69}', '\u{6D}', '\u{61}', '\u{63}', '\u{72}'], '\u{12B}', None),
        _ => (&[], ' ', None),
    }
}

pub open spec fn spec_entity_block_33(i: usize) -> (Seq<char>, Seq<char>) {
    match i {
        528 => (seq!['\u{49}', '\u{6F}', '\u{67}', '\u{6F}', '\u{6E}'], seq!['\u{12E}']),
        529 => (seq!['\u{69}', '\u{6F}', '\u{67}', '\u{6F}', '\u{6E}'], seq!['\u{12F}']),
        530 => (seq!['\u{49}', '\u{64}', '\u{6F}', '\u{74}'], seq!['\u{130}']),
        531 => (seq!['\u{69}', '\u{6D}', '\u{61}', '\u{74}', '\u{68}'], seq!['\u{131}']),
        532 => (seq!['\u{4A}', '\u{63}', '\u{69}', '\u{72}', '\u{63}'], seq!['\u{134}']),
        533 => (seq!['\u{6A}', '\u{63}', '\u{69}', '\u{72}', '\u{63}'], seq!['\u{135}']),
        534 => (seq!['\u{4B}', '\u{63}', '\u{65}', '\u{64}', '\u{69}', '\u{6C}'], seq!['\u{136}']),
        535 => (seq!['\u{6B}', '\u{63}', '\u{65}', '\u{64}', '\u{69}', '\u{6C}'], seq!['\u{137}']),
        536 => (seq!['\u{4C}', '\u{61}', '\u{63}', '\u{75}', '\u{74}', '\u{65}'], seq!['\u{139}']),
        537 => (seq!['\u{6C}', '\u{61}', '\u{63}', '\u{75}', '\u{74}', '\u{65}'], seq!['\u{13A}']),
        538 => (seq!['\u{4C}', '\u{63}', '\u{65}', '\u{64}', '\u{69}', '\u{6C}'], seq!['\u{13B}']),
        539 => (seq!['\u{6C}', '\u{63}', '\u{65}', '\u{64}', '\u{69}', '\u{6C}'], seq!['\u{13C}']),
        540 => (seq!['\u{4C}', '\u{63}', '\u{61}', '\u{72}', '\u{6F}', '\u{6E}'], seq!['\u{13D}']),
        541 => (seq!['\u{6C}', '\u{63}', '\u{61}', '\u{72}', '\u{6F}', '\u{6E}'], seq!['\u{13E}']),
        542 => (seq!['\u{4C}', '\u{6D}', '\u{69}', '\u{64}', '\u{6F}', '\u{74}'], seq!['\u{13F}']),
        543 => (seq!['\u{6C}', '\u{6D}', '\u{69}', '\u{64}', '\u{6F}', '\u{74}'], seq!['\u{140}']),
        _ => (Seq::empty(), Seq::empty()),
    }
}

fn entity_block_33(i: usize) -> (r: (&'static [char], char, Option<char>))
    ensures
        r.0@ == spec_entity_block_33(i).0,
        spec_entity_block_33(i).1 == (match r.2 {
            Some(c2) => seq![r.1, c2],
            None => seq![r.1],
        }) || spec_entity_block_33(i).1.len() == 0,
{
    match i {
        528 => (&['\u{49}', '\u{6F}', '\u{67}', '\u{6F}', '\u{6E}'], '\u{12E}', None),
        529 => (&['\u{69}', '\u{6F}', '\u{67}', '\u{6F}', '\u{6E}'], '\u{12F}', None),
        530 => (&['\u{49}', '\u{64}', '\u{6F}', '\u{74}'], '\u{130}', None),
        531 => (&['\u{69}', '\u{6D}', '\u{61}', '\u{74}', '\u{68}'], '\u{131}', None),
        532 => (&['\u{4A}', '\u{63}', '\u{69}', '\u{72}', '\u{63}'], '\u{134}', None),
        533 => (&['\u{6A}', '\u{63}', '\u{69}', '\u{72}', '\u{63}'], '\u{135}', None),
        534 => (&['\u{4B}', '\u{63}', '\u{65}', '\u{64}', '\u{69}', '\u{6C}'], '\u{136}', None),
        535 => (&['\u{6B}', '\u{63}', '\u{65}', '\u{64}', '\u{69}', '\u{6C}'], '\u{137}', None),
        536 => (&['\u{4C}', '\u{61}', '\u{63}', '\u{75}', '\u{74}', '\u{65}'], '\u{139}', None),
        537 => (&['\u{6C}', '\u{61}', '\u{63}', '\u{75}', '\u{74}', '\u{65}'], '\u{13A}', None),
        538 => (&['\u{4C}', '\u{63}', '\u{65}', '\u{64}', '\u{69}', '\u{6C}'], '\u{13B}', None),
        539 => (&['\u{6C}', '\u{63}', '\u{65}', '\u{64}', '\u{69}', '\u{6C}'], '\u{13C}', None),
        540 => (&['\u{4C}', '\u{63}', '\u{61}', '\u{72}', '\u{6F}', '\u{6E}'], '\u{13D}', None),
        541 => (&['\u{6C}', '\u{63}', '\u{61}', '\u{72}', '\u{6F}', '\u{6E}'], '\u{13E}', None),
        542 => (&['\u{4C}', '\u{6D}', '\u{69}', '\u{64}', '\u{6F}', '\u{74}'], '\u{13F}', None),
        543 => (&['\u{6C}', '\u{6D}', '\u{69}', '\u{64}', '\u{6F}', '\u{74}'], '\u{140}', None),
        _ => (&[], ' ', None),
    }
}

pub open spec fn spec_entity_block_34(i: usize) -> (Seq<char>, Seq<char>) {
    match i {
        544 => (seq!['\u{4C}', '\u{73}', '\u{74}', '\u{72}', '\u{6F}', '\u{6B}'], seq!['\u{141}']),
        545 => (seq!['\u{6C}', '\u{73}', '\u{74}', '\u{72}', '\u{6F}', '\u{6B}'], seq!['\u{142}']),
        546 => (seq!['\u{4E}', '\u{61}', '\u{63}', '\u{75}', '\u{74}', '\u{65}'], seq!['\u{143}']),
        547 => (seq!['\u{6E}', '\u{61}', '\u{63}', '\u{75}', '\u{74}', '\u{65}'], seq!['\u{144}']),
        548 => (seq!['\u{4E}', '\u{63}', '\u{65}', '\u{64}', '\u{69}', '\u{6C}'], seq!['\u{145}']),
        549 => (seq!['\u{6E}', '\u{63}', '\u{65}', '\u{64}', '\u{69}', '\u{6C}'], seq!['\u{146}']),
        550 => (seq!['\u{4E}', '\u{63}', '\u{61}', '\u{72}', '\u{6F}', '\u{6E}'], seq!['\u{147}']),
        551 => (seq!['\u{6E}', '\u{63}', '\u{61}', '\u{72}', '\u{6F}', '\u{6E}'], seq!['\u{148}']),
        552 => (seq!['\u{4F}', '\u{6D}', '\u{61}', '\u{63}', '\u{72}'], seq!['\u{14C}']),
        553 => (seq!['\u{6F}', '\u{6D}', '\u{61}', '\u{63}', '\u{72}'], seq!['\u{14D}']),
        554 => (seq!['\u{4F}', '\u{64}', '\u{62}', '\u{6C}', '\u{61}', '\u{63}'], seq!['\u{150}']),
        555 => (seq!['\u{6F}', '\u{64}', '\u{62}', '\u{6C}', '\u{61}', '\u{63}'], seq!['\u{151}']),
        556 => (seq!['\u{52}', '\u{61}', '\u{63}', '\u{75}', '\u{74}', '\u{65}'], seq!['\u{154}']),
        557 => (seq!['\u{72}', '\u{61}', '\u{63}', '\u{75}', '\u{74}', '\u{65}'], seq!['\u{155}']),
        558 => (seq!['\u{52}', '\u{63}', '\u{65}', '\u{64}', '\u{69}', '\u{6C}'], seq!['\u{156}']),
        559 => (seq!['\u{72}', '\u{63}', '\u{65}', '\u{64}', '\u{69}', '\u{6C}'], seq!['\u{157}']),
        _ => (Seq::empty(), Seq::empty()),
    }
}

fn entity_block_34(i: usize) -> (r: (&'static [char], char, Option<char>))
    ensures
        r.0@ == spec_entity_block_34(i).0,
        spec_entity_block_34(i).1 == (match r.2 {
            Some(c2) => seq![r.1, c2],
            None => seq![r.1],
        }) || spec_entity_block_34(i).1.len() == 0,
{
    match i {
        544 => (&['\u{4C}', '\u{73}', '\u{74}', '\u{72}', '\u{6F}', '\u{6B}'], '\u{141}', None),
        545 => (&['\u{6C}', '\u{73}', '\u{74}', '\u{72}', '\u{6F}', '\u{6B}'], '\u{142}', None),
        546 => (&['\u{4E}', '\u{61}', '\u{63}', '\u{75}', '\u{74}', '\u{65}'], '\u{143}', None),
        547 => (&['\u{6E}', '\u{61}', '\u{63}', '\u{75}', '\u{74}', '\u{65}'], '\u{144}', None),
        548 => (&['\u{4E}', '\u{63}', '\u{65}', '\u{64}', '\u{69}', '\u{6C}'], '\u{145}', None),
        549 => (&['\u{6E}', '\u{63}', '\u{65}', '\u{64}', '\u{69}', '\u{6C}'], '\u{146}', None),
        550 => (&['\u{4E}', '\u{63}', '\u{61}', '\u{72}', '\u{6F}', '\u{6E}'], '\u{147}', None),
        551 => (&['\u{6E}', '\u{63}', '\u{61}', '\u{72}', '\u{6F}', '\u{6E}'], '\u{148}', None),
        552 => (&['\u{4F}', '\u{6D}', '\u{61}', '\u{63}', '\u{72}'], '\u{14C}', None),
        553 => (&['\u{6F}', '\u{6D}', '\u{61}', '\u{63}', '\u{72}'], '\u{14D}', None),
        554 => (&['\u{4F}', '\u{64}', '\u{62}', '\u{6C}', '\u{61}', '\u{63}'], '\u{150}', None),
        555 => (&['\u{6F}', '\u{64}', '\u{62}', '\u{6C}', '\u{61}', '\u{63}'], '\u{151}', None),
        556 => (&['\u{52}', '\u{61}', '\u{63}', '\u{75}', '\u{74}', '\u{65}'], '\u{154}', None),
        557 => (&['\u{72}', '\u{61}', '\u{63}', '\u{75}', '\u{74}', '\u{65}'], '\u{155}', None),
        558 => (&['\u{52}', '\u{63}', '\u{65}', '\u{64}', '\u{69}', '\u{6C}'], '\u{156}', None),
        559 => (&['\u{72}', '\u{63}', '\u{65}', '\u{64}', '\u{69}', '\u{6C}'], '\u{157}', None),
        _ => (&[], ' ', None),
    }
}

pub open spec fn spec_entity_block_35(i: usize) -> (Seq<char>, Seq<char>) {
    match i {
        560 => (seq!['\u{52}', '\u{63}', '\u{61}', '\u{72}', '\u{6F}', '\u{6E}'], seq!['\u{158}']),
        561 => (seq!['\u{72}', '\u{63}', '\u{61}', '\u{72}', '\u{6F}', '\u{6E}'], seq!['\u{159}']),
        562 => (seq!['\u{53}', '\u{61}', '\u{63}', '\u{75}', '\u{74}', '\u{65}'], seq!['\u{15A}']),
        563 => (seq!['\u{73}', '\u{61}', '\u{63}', '\u{75}', '\u{74}', '\u{65}'], seq!['\u{15B}']),
        564 => (seq!['\u{53}', '\u{63}', '\u{69}', '\u{72}', '\u{63}'], seq!['\u{15C}']),
        565 => (seq!['\u{73}', '\u{63}', '\u{69}', '\u{72}', '\u{63}'], seq!['\u{15D}']),
        566 => (seq!['\u{53}', '\u{63}', '\u{65}', '\u{64}', '\u{69}', '\u{6C}'], seq!['\u{15E}']),
        567 => (seq!['\u{73}', '\u{63}', '\u{65}', '\u{64}', '\u{69}', '\u{6C}'], seq!['\u{15F}']),
        568 => (seq!['\u{54}', '\u{63}', '\u{65}', '\u{64}', '\u{69}', '\u{6C}'], seq!['\u{162}']),
        569 => (seq!['\u{74}', '\u{63}', '\u{65}', '\u{64}', '\u{69}', '\u{6C}'], seq!['\u{163}']),
        570 => (seq!['\u{54}', '\u{63}', '\u{61}', '\u{72}', '\u{6F}', '\u{6E}'], seq!['\u{164}']),
        571 => (seq!['\u{74}', '\u{63}', '\u{61}', '\u{72}', '\u{6F}', '\u{6E}'], seq!['\u{165}']),
        572 => (seq!['\u{54}', '\u{73}', '\u{74}', '\u{72}', '\u{6F}', '\u{6B}'], seq!['\u{166}']),
        573 => (seq!['\u{74}', '\u{73}', '\u{74}', '\u{72}', '\u{6F}', '\u{6B}'], seq!['\u{167}']),
        574 => (seq!['\u{55}', '\u{74}', '\u{69}', '\u{6C}', '\u{64}', '\u{65}'], seq!['\u{168}']),
        575 => (seq!['\u{75}', '\u{74}', '\u{69}', '\u{6C}', '\u{64}', '\u{65}'], seq!['\u{169}']),
        _ => (Seq::empty(), Seq::empty()),
    }
}

fn entity_block_35(i: usize) -> (r: (&'static [char], char, Option<char>))
    ensures
        r.0@ == spec_entity_block_35(i).0,
        spec_entity_block_35(i).1 == (match r.2 {
            Some(c2) => seq![r.1, c2],
            None => seq![r.1],
        }) || spec_entity_block_35(i).1.len() == 0,
{
    match i {
        560 => (&['\u{52}', '\u{63}', '\u{61}', '\u{72}', '\u{6F}', '\u{6E}'], '\u{158}', None),
        561 => (&['\u{72}', '\u{63}', '\u{61}', '\u{72}', '\u{6F}', '\u{6E}'], '\u{159}', None),
        562 => (&['\u{53}', '\u{61}', '\u{63}', '\u{75}', '\u{74}', '\u{65}'], '\u{15A}', None),
        563 => (&['\u{73}', '\u{61}', '\u{63}', '\u{75}', '\u{74}', '\u{65}'], '\u{15B}', None),
        564 => (&['\u{53}', '\u{63}', '\u{69}', '\u{72}', '\u{63}'], '\u{15C}', None),
        565 => (&['\u{73}', '\u{63}', '\u{69}', '\u{72}', '\u{63}'], '\u{15D}', None),
        566 => (&['\u{53}', '\u{63}', '\u{65}', '\u{64}', '\u{69}', '\u{6C}'], '\u{15E}', None),
        567 => (&['\u{73}', '\u{63}', '\u{65}', '\u{64}', '\u{69}', '\u{6C}'], '\u{15F}', None),
        568 => (&['\u{54}', '\u{63}', '\u{65}', '\u{64}', '\u{69}', '\u{6C}'], '\u{162}', None),
        569 => (&['\u{74}', '\u{63}', '\u{65}', '\u{64}', '\u{69}', '\u{6C}'], '\u{163}', None),
        570 => (&['\u{54}', '\u{63}', '\u{61}', '\u{72}', '\u{6F}', '\u{6E}'], '\u{164}', None),
        571 => (&['\u{74}', '\u{63}', '\u{61}', '\u{72}', '\u{6F}', '\u{6E}'], '\u{165}', None),
        572 => (&['\u{54}', '\u{73}', '\u{74}', '\u{72}', '\u{6F}', '\u{6B}'], '\u{166}', None),
        573 => (&['\u{74}', '\u{73}', '\u{74}', '\u{72}', '\u{6F}', '\u{6B}'], '\u{167}', None),
        574 => (&['\u{55}', '\u{74}', '\u{69}', '\u{6C}', '\u{64}', '\u{65}'], '\u{168}', None),
        575 => (&['\u{75}', '\u{74}', '\u{69}', '\u{6C}', '\u{64}', '\u{65}'], '\u{169}', None),
        _ => (&[], ' ', None),
    }
}

pub open spec fn spec_entity_block_36(i: usize) -> (Seq<char>, Seq<char>) {
    match i {
        576 => (seq!['\u{55}', '\u{6D}', '\u{61}', '\u{63}', '\u{72}'], seq!['\u{16A}']),
        577 => (seq!['\u{75}', '\u{6D}', '\u{61}', '\u{63}', '\u{72}'], seq!['\u{16B}']),
        578 => (seq!['\u{55}', '\u{72}', '\u{69}', '\u{6E}', '\u{67}'], seq!['\u{16E}']),
        579 => (seq!['\u{75}', '\u{72}', '\u{69}', '\u{6E}', '\u{67}'], seq!['\u{16F}']),
        580 => (seq!['\u{55}', '\u{64}', '\u{62}', '\u{6C}', '\u{61}', '\u{63}'], seq!['\u{170}']),
        581 => (seq!['\u{75}', '\u{64}', '\u{62}', '\u{6C}', '\u{61}', '\u{63}'], seq!['\u{171}']),
        582 => (seq!['\u{55}', '\u{6F}', '\u{67}', '\u{6F}', '\u{6E}'], seq!['\u{172}']),
        583 => (seq!['\u{75}', '\u{6F}', '\u{67}', '\u{6F}', '\u{6E}'], seq!['\u{173}']),
        584 => (seq!['\u{57}', '\u{63}', '\u{69}', '\u{72}', '\u{63}'], seq!['\u{174}']),
        585 => (seq!['\u{77}', '\u{63}', '\u{69}', '\u{72}', '\u{63}'], seq!['\u{175}']),
        586 => (seq!['\u{59}', '\u{63}', '\u{69}', '\u{72}', '\u{63}'], seq!['\u{176}']),
        587 => (seq!['\u{79}', '\u{63}', '\u{69}', '\u{72}', '\u{63}'], seq!['\u{177}']),
        588 => (seq!['\u{5A}', '\u{61}', '\u{63}', '\u{75}', '\u{74}', '\u{65}'], seq!['\u{179}']),
        589 => (seq!['\u{7A}', '\u{61}', '\u{63}', '\u{75}', '\u{74}', '\u{65}'], seq!['\u{17A}']),
        590 => (seq!['\u{5A}', '\u{64}', '\u{6F}', '\u{74}'], seq!['\u{17B}']),
        591 => (seq!['\u{7A}', '\u{64}', '\u{6F}', '\u{74}'], seq!['\u{17C}']),
        _ => (Seq::empty(), Seq::empty()),
    }
}

fn entity_block_36(i: usize) -> (r: (&'static [char], char, Option<char>))
    ensures
        r.0@ == spec_entity_block_36(i).0,
        spec_entity_block_36(i).1 == (match r.2 {
            Some(c2) => seq![r.1, c2],
            None => seq![r.1],
        }) || spec_entity_block_36(i).1.len() == 0,
{
    match i {
        576 => (&['\u{55}', '\u{6D}', '\u{61}', '\u{63}', '\u{72}'], '\u{16A}', None),
        577 => (&['\u{75}', '\u{6D}', '\u{61}', '\u{63}', '\u{72}'], '\u{16B}', None),
        578 => (&['\u{55}', '\u{72}', '\u{69}', '\u{6E}', '\u{67}'], '\u{16E}', None),
        579 => (&['\u{75}', '\u{72}', '\u{69}', '\u{6E}', '\u{67}'], '\u{16F}', None),
        580 => (&['\u{55}', '\u{64}', '\u{62}', '\u{6C}', '\u{61}', '\u{63}'], '\u{170}', None),
        581 => (&['\u{75}', '\u{64}', '\u{62}', '\u{6C}', '\u{61}', '\u{63}'], '\u{171}', None),
        582 => (&['\u{55}', '\u{6F}', '\u{67}', '\u{6F}', '\u{6E}'], '\u{172}', None),
        583 => (&['\u{75}', '\u{6F}', '\u{67}', '\u{6F}', '\u{6E}'], '\u{173}', None),
        584 => (&['\u{57}', '\u{63}', '\u{69}', '\u{72}', '\u{63}'], '\u{174}', None),
        585 => (&['\u{77}', '\u{63}', '\u{69}', '\u{72}', '\u{63}'], '\u{175}', None),
        586 => (&['\u{59}', '\u{63}', '\u{69}', '\u{72}', '\u{63}'], '\u{176}', None),
        587 => (&['\u{79}', '\u{63}', '\u{69}', '\u{72}', '\u{63}'], '\u{177}', None),
        588 => (&['\u{5A}', '\u{61}', '\u{63}', '\u{75}', '\u{74}', '\u{65}'], '\u{179}', None),
        589 => (&['\u{7A}', '\u{61}', '\u{63}', '\u{75}', '\u{74}', '\u{65}'], '\u{17A}', None),
        590 => (&['\u{5A}', '\u{64}', '\u{6F}', '\u{74}'], '\u{17B}', None),
        591 => (&['\u{7A}', '\u{64}', '\u{6F}', '\u{74}'], '\u{17C}', None),
        _ => (&[], ' ', None),
    }
}

pub open spec fn spec_entity_block_37(i: usize) -> (Seq<char>, Seq<char>) {
    match i {
        592 => (seq!['\u{5A}', '\u{63}', '\u{61}', '\u{72}', '\u{6F}', '\u{6E}'], seq!['\u{17D}']),
        593 => (seq!['\u{7A}', '\u{63}', '\u{61}', '\u{72}', '\u{6F}', '\u{6E}'], seq!['\u{17E}']),
        594 => (seq!['\u{66}', '\u{6E}', '\u{6F}', '\u{66}', '\u{32}'], seq!['\u{192}']),
        595 => (seq!['\u{69}', '\u{6D}', '\u{70}', '\u{65}', '\u{64}'], seq!['\u{1B5}']),
        596 => (seq!['\u{67}', '\u{61}', '\u{6D}', '\u{6D}', '\u{61}', '\u{32}'], seq!['\u{263}']),
        597 => (seq!['\u{6C}', '\u{61}', '\u{6D}', '\u{62}', '\u{64}', '\u{61}', '\u{32}'], seq!['\u{19B}']),
        598 => (seq!['\u{75}', '\u{72}', '\u{69}', '\u{6F}'], seq!['\u{16D}']),
        599 => (seq!['\u{61}', '\u{70}', '\u{6F}', '\u{73}', '\u{32}'], seq!['\u{2BC}']),
        600 => (seq!['\u{6C}', '\u{73}', '\u{71}', '\u{75}', '\u{6F}', '\u{72}'], seq!['\u{201A}']),
        601 => (seq!['\u{6C}', '\u{64}', '\u{71}', '\u{75}', '\u{6F}', '\u{72}'], seq!['\u{201E}']),
        602 => (seq!['\u{64}', '\u{61}', '\u{67}', '\u{67}', '\u{65}', '\u{72}', '\u{32}'], seq!['\u{2020}']),
        603 => (seq!['\u{44}', '\u{61}', '\u{67}', '\u{67}', '\u{65}', '\u{72}', '\u{32}'], seq!['\u{2021}']),
        604 => (seq!['\u{62}', '\u{75}', '\u{6C}', '\u{6C}', '\u{32}'], seq!['\u{2022}']),
        605 => (seq!['\u{6E}', '\u{6C}', '\u{64}', '\u{72}'], seq!['\u{2025}']),
        606 => (seq!['\u{68}', '\u{65}', '\u{6C}', '\u{6C}', '\u{69}', '\u{70}', '\u{32}'], seq!['\u{2026}']),
        607 => (seq!['\u{70}', '\u{65}', '\u{72}', '\u{74}', '\u{65}', '\u{6E}', '\u{6B}'], seq!['\u{2031}']),
        _ => (Seq::empty(), Seq::empty()),
    }
}

fn entity_block_37(i: usize) -> (r: (&'static [char], char, Option<char>))
    ensures
        r.0@ == spec_entity_block_37(i).0,
        spec_entity_block_37(i).1 == (match r.2 {
            Some(c2) => seq![r.1, c2],
            None => seq![r.1],
        }) || spec_entity_block_37(i).1.len() == 0,
{
    match i {
        592 => (&['\u{5A}', '\u{63}', '\u{61}', '\u{72}', '\u{6F}', '\u{6E}'], '\u{17D}', None),
        593 => (&['\u{7A}', '\u{63}', '\u{61}', '\u{72}', '\u{6F}', '\u{6E}'], '\u{17E}', None),
        594 => (&['\u{66}', '\u{6E}', '\u{6F}', '\u{66}', '\u{32}'], '\u{192}', None),
        595 => (&['\u{69}', '\u{6D}', '\u{70}', '\u{65}', '\u{64}'], '\u{1B5}', None),
        596 => (&['\u{67}', '\u{61}', '\u{6D}', '\u{6D}', '\u{61}', '\u{32}'], '\u{263}', None),
        597 => (&['\u{6C}', '\u{61}', '\u{6D}', '\u{62}', '\u{64}', '\u{61}', '\u{32}'], '\u{19B}', None),
        598 => (&['\u{75}', '\u{72}', '\u{69}', '\u{6F}'], '\u{16D}', None),
        599 => (&['\u{61}', '\u{70}', '\u{6F}', '\u{73}', '\u{32}'], '\u{2BC}', None),
        600 => (&['\u{6C}', '\u{73}', '\u{71}', '\u{75}', '\u{6F}', '\u{72}'], '\u{201A}', None),
        601 => (&['\u{6C}', '\u{64}', '\u{71}', '\u{75}', '\u{6F}', '\u{72}'], '\u{201E}', None),
        602 => (&['\u{64}', '\u{61}', '\u{67}', '\u{67}', '\u{65}', '\u{72}', '\u{32}'], '\u{2020}', None),
        603 => (&['\u{44}', '\u{61}', '\u{67}', '\u{67}', '\u{65}', '\u{72}', '\u{32}'], '\u{2021}', None),
        604 => (&['\u{62}', '\u{75}', '\u{6C}', '\u{6C}', '\u{32}'], '\u{2022}', None),
        605 => (&['\u{6E}', '\u{6C}', '\u{64}', '\u{72}'], '\u{2025}', None),
        606 => (&['\u{68}', '\u{65}', '\u{6C}', '\u{6C}', '\u{69}', '\u{70}', '\u{32}'], '\u{2026}', None),
        607 => (&['\u{70}', '\u{65}', '\u{72}', '\u{74}', '\u{65}', '\u{6E}', '\u{6B}'], '\u{2031}', None),
        _ => (&[], ' ', None),
    }
}

pub open spec fn spec_entity_block_38(i: usize) -> (Seq<char>, Seq<char>) {
    match i {
        608 => (seq!['\u{70}', '\u{72}', '\u{69}', '\u{6D}', '\u{65}', '\u{32}'], seq!['\u{2032}']),
        609 => (seq!['\u{50}', '\u{72}', '\u{69}', '\u{6D}', '\u{65}', '\u{32}'], seq!['\u{2033}']),
        610 => (seq!['\u{74}', '\u{70}', '\u{72}', '\u{69}', '\u{6D}', '\u{65}'], seq!['\u{2034}']),
        611 => (seq!['\u{62}', '\u{61}', '\u{63}', '\u{6B}', '\u{70}', '\u{72}', '\u{69}', '\u{6D}', '\u{65}'], seq!['\u{2035}']),
        612 => (seq!['\u{6F}', '\u{6C}', '\u{69}', '\u{6E}', '\u{65}', '\u{32}'], seq!['\u{203E}']),
        613 => (seq!['\u{63}', '\u{61}', '\u{72}', '\u{65}', '\u{74}'], seq!['\u{2041}']),
        614 => (seq!['\u{73}', '\u{6D}', '\u{69}', '\u{6C}', '\u{65}'], seq!['\u{2323}']),
        615 => (seq!['\u{66}', '\u{72}', '\u{6F}', '\u{77}', '\u{6E}'], seq!['\u{2322}']),
        616 => (seq!['\u{74}', '\u{61}', '\u{72}', '\u{67}', '\u{65}', '\u{74}'], seq!['\u{2316}']),
        617 => (seq!['\u{74}', '\u{65}', '\u{6C}', '\u{72}', '\u{65}', '\u{63}'], seq!['\u{2315}']),
        618 => (seq!['\u{74}', '\u{6F}', '\u{70}', '\u{62}', '\u{6F}', '\u{74}'], seq!['\u{23B6}']),
        619 => (seq!['\u{62}', '\u{6F}', '\u{74}', '\u{74}', '\u{6F}', '\u{6D}'], seq!['\u{22A5}']),
        620 => (seq!['\u{62}', '\u{6F}', '\u{74}'], seq!['\u{22A5}']),
        621 => (seq!['\u{74}', '\u{6F}', '\u{70}'], seq!['\u{22A4}']),
        622 => (seq!['\u{76}', '\u{7A}', '\u{69}', '\u{67}', '\u{7A}', '\u{61}', '\u{67}'], seq!['\u{299A}']),
        623 => (seq!['\u{76}', '\u{61}', '\u{6E}', '\u{67}', '\u{72}', '\u{74}'], seq!['\u{299C}']),
        _ => (Seq::empty(), Seq::empty()),
    }
}

fn entity_block_38(i: usize) -> (r: (&'static [char], char, Option<char>))
    ensures
        r.0@ == spec_entity_block_38(i).0,
        spec_entity_block_38(i).1 == (match r.2 {
            Some(c2) => seq![r.1, c2],
            None => seq![r.1],
        }) || spec_entity_block_38(i).1.len() == 0,
{
    match i {
        608 => (&['\u{70}', '\u{72}', '\u{69}', '\u{6D}', '\u{65}', '\u{32}'], '\u{2032}', None),
        609 => (&['\u{50}', '\u{72}', '\u{69}', '\u{6D}', '\u{65}', '\u{32}'], '\u{2033}', None),
        610 => (&['\u{74}', '\u{70}', '\u{72}', '\u{69}', '\u{6D}', '\u{65}'], '\u{2034}', None),
        611 => (&['\u{62}', '\u{61}', '\u{63}', '\u{6B}', '\u{70}', '\u{72}', '\u{69}', '\u{6D}', '\u{65}'], '\u{2035}', None),
        612 => (&['\u{6F}', '\u{6C}', '\u{69}', '\u{6E}', '\u{65}', '\u{32}'], '\u{203E}', None),
        613 => (&['\u{63}', '\u{61}', '\u{72}', '\u{65}', '\u{74}'], '\u{2041}', None),
        614 => (&['\u{73}', '\u{6D}', '\u{69}', '\u{6C}', '\u{65}'], '\u{2323}', None),
        615 => (&['\u{66}', '\u{72}', '\u{6F}', '\u{77}', '\u{6E}'], '\u{2322}', None),
        616 => (&['\u{74}', '\u{61}', '\u{72}', '\u{67}', '\u{65}', '\u{74}'], '\u{2316}', None),
        617 => (&['\u{74}', '\u{65}', '\u{6C}', '\u{72}', '\u{65}', '\u{63}'], '\u{2315}', None),
        618 => (&['\u{74}', '\u{6F}', '\u{70}', '\u{62}', '\u{6F}', '\u{74}'], '\u{23B6}', None),
        619 => (&['\u{62}', '\u{6F}', '\u{74}', '\u{74}', '\u{6F}', '\u{6D}'], '\u{22A5}', None),
        620 => (&['\u{62}', '\u{6F}', '\u{74}'], '\u{22A5}', None),
        621 => (&['\u{74}', '\u{6F}', '\u{70}'], '\u{22A4}', None),
        622 => (&['\u{76}', '\u{7A}', '\u{69}', '\u{67}', '\u{7A}', '\u{61}', '\u{67}'], '\u{299A}', None),
        623 => (&['\u{76}', '\u{61}', '\u{6E}', '\u{67}', '\u{72}', '\u{74}'], '\u{299C}', None),
        _ => (&[], ' ', None),
    }
}

pub open spec fn spec_entity_block_39(i: usize) -> (Seq<char>, Seq<char>) {
    match i {
        624 => (seq!['\u{76}', '\u{65}', '\u{65}', '\u{62}', '\u{61}', '\u{72}'], seq!['\u{22BB}']),
        625 => (seq!['\u{62}', '\u{61}', '\u{72}', '\u{76}', '\u{65}', '\u{65}'], seq!['\u{22BD}']),
        626 => (seq!['\u{61}', '\u{6E}', '\u{67}', '\u{72}', '\u{74}', '\u{76}', '\u{62}', '\u{64}'], seq!['\u{299D}']),
        627 => (seq!['\u{61}', '\u{6E}', '\u{67}', '\u{65}'], seq!['\u{29A4}']),
        628 => (seq!['\u{72}', '\u{61}', '\u{6E}', '\u{67}', '\u{65}'], seq!['\u{29A5}']),
        629 => (seq!['\u{64}', '\u{77}', '\u{61}', '\u{6E}', '\u{67}', '\u{6C}', '\u{65}'], seq!['\u{29A6}']),
        630 => (seq!['\u{75}', '\u{77}', '\u{61}', '\u{6E}', '\u{67}', '\u{6C}', '\u{65}'], seq!['\u{29A7}']),
        631 => (seq!['\u{73}', '\u{65}', '\u{61}', '\u{72}', '\u{68}', '\u{6B}'], seq!['\u{2925}']),
        632 => (seq!['\u{73}', '\u{77}', '\u{61}', '\u{72}', '\u{68}', '\u{6B}'], seq!['\u{2926}']),
        633 => (seq!['\u{6E}', '\u{65}', '\u{61}', '\u{72}', '\u{68}', '\u{6B}'], seq!['\u{2924}']),
        634 => (seq!['\u{6E}', '\u{77}', '\u{61}', '\u{72}', '\u{68}', '\u{6B}'], seq!['\u{2923}']),
        635 => (seq!['\u{6E}', '\u{77}', '\u{61}', '\u{72}', '\u{72}'], seq!['\u{2196}']),
        636 => (seq!['\u{6E}', '\u{65}', '\u{61}', '\u{72}', '\u{72}'], seq!['\u{2197}']),
        637 => (seq!['\u{73}', '\u{65}', '\u{61}', '\u{72}', '\u{72}'], seq!['\u{2198}']),
        638 => (seq!['\u{73}', '\u{77}', '\u{61}', '\u{72}', '\u{72}'], seq!['\u{2199}']),
        639 => (seq!['\u{6E}', '\u{6C}', '\u{61}', '\u{72}', '\u{72}'], seq!['\u{219A}']),
        _ => (Seq::empty(), Seq::empty()),
    }
}

fn entity_block_39(i: usize) -> (r: (&'static [char], char, Option<char>))
    ensures
        r.0@ == spec_entity_block_39(i).0,
        spec_entity_block_39(i).1 == (match r.2 {
            Some(c2) => seq![r.1, c2],
            None => seq![r.1],
        }) || spec_entity_block_39(i).1.len() == 0,
{
    match i {
        624 => (&['\u{76}', '\u{65}', '\u{65}', '\u{62}', '\u{61}', '\u{72}'], '\u{22BB}', None),
        625 => (&['\u{62}', '\u{61}', '\u{72}', '\u{76}', '\u{65}', '\u{65}'], '\u{22BD}', None),
        626 => (&['\u{61}', '\u{6E}', '\u{67}', '\u{72}', '\u{74}', '\u{76}', '\u{62}', '\u{64}'], '\u{299D}', None),
        627 => (&['\u{61}', '\u{6E}', '\u{67}', '\u{65}'], '\u{29A4}', None),
        628 => (&['\u{72}', '\u{61}', '\u{6E}', '\u{67}', '\u{65}'], '\u{29A5}', None),
        629 => (&['\u{64}', '\u{77}', '\u{61}', '\u{6E}', '\u{67}', '\u{6C}', '\u{65}'], '\u{29A6}', None),
        630 => (&['\u{75}', '\u{77}', '\u{61}', '\u{6E}', '\u{67}', '\u{6C}', '\u{65}'], '\u{29A7}', None),
        631 => (&['\u{73}', '\u{65}', '\u{61}', '\u{72}', '\u{68}', '\u{6B}'], '\u{2925}', None),
        632 => (&['\u{73}', '\u{77}', '\u{61}', '\u{72}', '\u{68}', '\u{6B}'], '\u{2926}', None),
        633 => (&['\u{6E}', '\u{65}', '\u{61}', '\u{72}', '\u{68}', '\u{6B}'], '\u{2924}', None),
        634 => (&['\u{6E}', '\u{77}', '\u{61}', '\u{72}', '\u{68}', '\u{6B}'], '\u{2923}', None),
        635 => (&['\u{6E}', '\u{77}', '\u{61}', '\u{72}', '\u{72}'], '\u{2196}', None),
        636 => (&['\u{6E}', '\u{65}', '\u{61}', '\u{72}', '\u{72}'], '\u{2197}', None),
        637 => (&['\u{73}', '\u{65}', '\u{61}', '\u{72}', '\u{72}'], '\u{2198}', None),
        638 => (&['\u{73}', '\u{77}', '\u{61}', '\u{72}', '\u{72}'], '\u{2199}', None),
        639 => (&['\u{6E}', '\u{6C}', '\u{61}', '\u{72}', '\u{72}'], '\u{219A}', None),
        _ => (&[], ' ', None),
    }
}

pub open spec fn spec_entity_block_40(i: usize) -> (Seq<char>, Seq<char>) {
    match i {
        640 => (seq!['\u{6E}', '\u{72}', '\u{61}', '\u{72}', '\u{72}'], seq!['\u{219B}']),
        641 => (seq!['\u{72}', '\u{61}', '\u{72}', '\u{72}', '\u{77}'], seq!['\u{219D}']),
        642 => (seq!['\u{6C}', '\u{61}', '\u{72}', '\u{72}', '\u{77}'], seq!['\u{219C}']),
        643 => (seq!['\u{75}', '\u{70}', '\u{64}', '\u{6F}', '\u{77}', '\u{6E}', '\u{61}', '\u{72}', '\u{72}', '\u{6F}', '\u{77}'], seq!['\u{21C5}']),
        644 => (seq!['\u{55}', '\u{70}', '\u{64}', '\u{6F}', '\u{77}', '\u{6E}', '\u{61}', '\u{72}', '\u{72}', '\u{6F}', '\u{77}'], seq!['\u{21D5}']),
        645 => (seq!['\u{52}', '\u{69}', '\u{67}', '\u{68}', '\u{74}', '\u{41}', '\u{72}', '\u{72}', '\u{6F}', '\u{77}', '\u{4C}', '\u{65}', '\u{66}', '\u{74}', '\u{41}', '\u{72}', '\u{72}', '\u{6F}', '\u{77}'], seq!['\u{21C4}']),
        646 => (seq!['\u{4C}', '\u{65}', '\u{66}', '\u{74}', '\u{41}', '\u{72}', '\u{72}', '\u{6F}', '\u{77}', '\u{52}', '\u{69}', '\u{67}', '\u{68}', '\u{74}', '\u{41}', '\u{72}', '\u{72}', '\u{6F}', '\u{77}'], seq!['\u{21C6}']),
        647 => (seq!['\u{6C}', '\u{65}', '\u{66}', '\u{74}', '\u{61}', '\u{72}', '\u{72}', '\u{6F}', '\u{77}'], seq!['\u{2190}']),
        648 => (seq!['\u{72}', '\u{69}', '\u{67}', '\u{68}', '\u{74}', '\u{61}', '\u{72}', '\u{72}', '\u{6F}', '\u{77}'], seq!['\u{2192}']),
        649 => (seq!['\u{75}', '\u{70}', '\u{61}', '\u{72}', '\u{72}', '\u{6F}', '\u{77}'], seq!['\u{2191}']),
        650 => (seq!['\u{64}', '\u{6F}', '\u{77}', '\u{6E}', '\u{61}', '\u{72}', '\u{72}', '\u{6F}', '\u{77}'], seq!['\u{2193}']),
        651 => (seq!['\u{6C}', '\u{65}', '\u{66}', '\u{74}', '\u{72}', '\u{69}', '\u{67}', '\u{68}', '\u{74}', '\u{61}', '\u{72}', '\u{72}', '\u{6F}', '\u{77}'], seq!['\u{2194}']),
        652 => (seq!['\u{6E}', '\u{77}', '\u{61}', '\u{72}', '\u{72}', '\u{6F}', '\u{77}'], seq!['\u{2196}']),
        653 => (seq!['\u{6E}', '\u{65}', '\u{61}', '\u{72}', '\u{72}', '\u{6F}', '\u{77}'], seq!['\u{2197}']),
        654 => (seq!['\u{73}', '\u{65}', '\u{61}', '\u{72}', '\u{72}', '\u{6F}', '\u{77}'], seq!['\u{2198}']),
        655 => (seq!['\u{73}', '\u{77}', '\u{61}', '\u{72}', '\u{72}', '\u{6F}', '\u{77}'], seq!['\u{2199}']),
        _ => (Seq::empty(), Seq::empty()),
    }
}

fn entity_block_40(i: usize) -> (r: (&'static [char], char, Option<char>))
    ensures
        r.0@ == spec_entity_block_40(i).0,
        spec_entity_block_40(i).1 == (match r.2 {
            Some(c2) => seq![r.1, c2],
            None => seq![r.1],
        }) || spec_entity_block_40(i).1.len() == 0,
{
    match i {
        640 => (&['\u{6E}', '\u{72}', '\u{61}', '\u{72}', '\u{72}'], '\u{219B}', None),
        641 => (&['\u{72}', '\u{61}', '\u{72}', '\u{72}', '\u{77}'], '\u{219D}', None),
        642 => (&['\u{6C}', '\u{61}', '\u{72}', '\u{72}', '\u{77}'], '\u{219C}', None),
        643 => (&['\u{75}', '\u{70}', '\u{64}', '\u{6F}', '\u{77}', '\u{6E}', '\u{61}', '\u{72}', '\u{72}', '\u{6F}', '\u{77}'], '\u{21C5}', None),
        644 => (&['\u{55}', '\u{70}', '\u{64}', '\u{6F}', '\u{77}', '\u{6E}', '\u{61}', '\u{72}', '\u{72}', '\u{6F}', '\u{77}'], '\u{21D5}', None),
        645 => (&['\u{52}', '\u{69}', '\u{67}', '\u{68}', '\u{74}', '\u{41}', '\u{72}', '\u{72}', '\u{6F}', '\u{77}', '\u{4C}', '\u{65}', '\u{66}', '\u{74}', '\u{41}', '\u{72}', '\u{72}', '\u{6F}', '\u{77}'], '\u{21C4}', None),
        646 => (&['\u{4C}', '\u{65}', '\u{66}', '\u{74}', '\u{41}', '\u{72}', '\u{72}', '\u{6F}', '\u{77}', '\u{52}', '\u{69}', '\u{67}', '\u{68}', '\u{74}', '\u{41}', '\u{72}', '\u{72}', '\u{6F}', '\u{77}'], '\u{21C6}', None),
        647 => (&['\u{6C}', '\u{65}', '\u{66}', '\u{74}', '\u{61}', '\u{72}', '\u{72}', '\u{6F}', '\u{77}'], '\u{2190}', None),
        648 => (&['\u{72}', '\u{69}', '\u{67}', '\u{68}', '\u{74}', '\u{61}', '\u{72}', '\u{72}', '\u{6F}', '\u{77}'], '\u{2192}', None),
        649 => (&['\u{75}', '\u{70}', '\u{61}', '\u{72}', '\u{72}', '\u{6F}', '\u{77}'], '\u{2191}', None),
        650 => (&['\u{64}', '\u{6F}', '\u{77}', '\u{6E}', '\u{61}', '\u{72}', '\u{72}', '\u{6F}', '\u{77}'], '\u{2193}', None),
        651 => (&['\u{6C}', '\u{65}', '\u{66}', '\u{74}', '\u{72}', '\u{69}', '\u{67}', '\u{68}', '\u{74}', '\u{61}', '\u{72}', '\u{72}', '\u{6F}', '\u{77}'], '\u{2194}', None),
        652 => (&['\u{6E}', '\u{77}', '\u{61}', '\u{72}', '\u{72}', '\u{6F}', '\u{77}'], '\u{2196}', None),
        653 => (&['\u{6E}', '\u{65}', '\u{61}', '\u{72}', '\u{72}', '\u{6F}', '\u{77}'], '\u{2197}', None),
        654 => (&['\u{73}', '\u{65}', '\u{61}', '\u{72}', '\u{72}', '\u{6F}', '\u{77}'], '\u{2198}', None),
        655 => (&['\u{73}', '\u{77}', '\u{61}', '\u{72}', '\u{72}', '\u{6F}', '\u{77}'], '\u{2199}', None),
        _ => (&[], ' ', None),
    }
}

pub open spec fn spec_entity_block_41(i: usize) -> (Seq<char>, Seq<char>) {
    match i {
        656 => (seq!['\u{68}', '\u{6F}', '\u{6F}', '\u{6B}', '\u{6C}', '\u{65}', '\u{66}', '\u{74}', '\u{61}', '\u{72}', '\u{72}', '\u{6F}', '\u{77}'], seq!['\u{21A9}']),
        657 => (seq!['\u{68}', '\u{6F}', '\u{6F}', '\u{6B}', '\u{72}', '\u{69}', '\u{67}', '\u{68}', '\u{74}', '\u{61}', '\u{72}', '\u{72}', '\u{6F}', '\u{77}'], seq!['\u{21AA}']),
        658 => (seq!['\u{6C}', '\u{6F}', '\u{6F}', '\u{70}', '\u{61}', '\u{72}', '\u{72}', '\u{6F}', '\u{77}', '\u{6C}', '\u{65}', '\u{66}', '\u{74}'], seq!['\u{21AB}']),
        659 => (seq!['\u{6C}', '\u{6F}', '\u{6F}', '\u{70}', '\u{61}', '\u{72}', '\u{72}', '\u{6F}', '\u{77}', '\u{72}', '\u{69}', '\u{67}', '\u{68}', '\u{74}'], seq!['\u{21AC}']),
        660 => (seq!['\u{6C}', '\u{65}', '\u{66}', '\u{74}', '\u{68}', '\u{61}', '\u{72}', '\u{70}', '\u{6F}', '\u{6F}', '\u{6E}', '\u{75}', '\u{70}'], seq!['\u{21BC}']),
        661 => (seq!['\u{6C}', '\u{65}', '\u{66}', '\u{74}', '\u{68}', '\u{61}', '\u{72}', '\u{70}', '\u{6F}', '\u{6F}', '\u{6E}', '\u{64}', '\u{6F}', '\u{77}', '\u{6E}'], seq!['\u{21BD}']),
        662 => (seq!['\u{75}', '\u{70}', '\u{68}', '\u{61}', '\u{72}', '\u{70}', '\u{6F}', '\u{6F}', '\u{6E}', '\u{72}', '\u{69}', '\u{67}', '\u{68}', '\u{74}'], seq!['\u{21BE}']),
        663 => (seq!['\u{75}', '\u{70}', '\u{68}', '\u{61}', '\u{72}', '\u{70}', '\u{6F}', '\u{6F}', '\u{6E}', '\u{6C}', '\u{65}', '\u{66}', '\u{74}'], seq!['\u{21BF}']),
        664 => (seq!['\u{72}', '\u{69}', '\u{67}', '\u{68}', '\u{74}', '\u{68}', '\u{61}', '\u{72}', '\u{70}', '\u{6F}', '\u{6F}', '\u{6E}', '\u{75}', '\u{70}'], seq!['\u{21C0}']),
        665 => (seq!['\u{72}', '\u{69}', '\u{67}', '\u{68}', '\u{74}', '\u{68}', '\u{61}', '\u{72}', '\u{70}', '\u{6F}', '\u{6F}', '\u{6E}', '\u{64}', '\u{6F}', '\u{77}', '\u{6E}'], seq!['\u{21C1}']),
        666 => (seq!['\u{64}', '\u{6F}', '\u{77}', '\u{6E}', '\u{68}', '\u{61}', '\u{72}', '\u{70}', '\u{6F}', '\u{6F}', '\u{6E}', '\u{72}', '\u{69}', '\u{67}', '\u{68}', '\u{74}'], seq!['\u{21C2}']),
        667 => (seq!['\u{64}', '\u{6F}', '\u{77}', '\u{6E}', '\u{68}', '\u{61}', '\u{72}', '\u{70}', '\u{6F}', '\u{6F}', '\u{6E}', '\u{6C}', '\u{65}', '\u{66}', '\u{74}'], seq!['\u{21C3}']),
        668 => (seq!['\u{72}', '\u{69}', '\u{67}', '\u{68}', '\u{74}', '\u{73}', '\u{71}', '\u{75}', '\u{69}', '\u{67}', '\u{61}', '\u{72}', '\u{72}', '\u{6F}', '\u{77}'], seq!['\u{21DD}']),
        669 => (seq!['\u{6C}', '\u{65}', '\u{66}', '\u{74}', '\u{72}', '\u{69}', '\u{67}', '\u{68}', '\u{74}', '\u{73}', '\u{71}', '\u{75}', '\u{69}', '\u{67}', '\u{61}', '\u{72}', '\u{72}', '\u{6F}', '\u{77}'], seq!['\u{21AD}']),
        670 => (seq!['\u{55}', '\u{70}', '\u{41}', '\u{72}', '\u{72}', '\u{6F}', '\u{77}', '\u{44}', '\u{6F}', '\u{77}', '\u{6E}', '\u{41}', '\u{72}', '\u{72}', '\u{6F}', '\u{77}'], seq!['\u{21C5}']),
        671 => (seq!['\u{42}', '\u{61}', '\u{72}', '\u{77}', '\u{65}', '\u{64}'], seq!['\u{2306}']),
        _ => (Seq::empty(), Seq::empty()),
    }
}

fn entity_block_41(i: usize) -> (r: (&'static [char], char, Option<char>))
    ensures
        r.0@ == spec_entity_block_41(i).0,
        spec_entity_block_41(i).1 == (match r.2 {
            Some(c2) => seq![r.1, c2],
            None => seq![r.1],
        }) || spec_entity_block_41(i).1.len() == 0,
{
    match i {
        656 => (&['\u{68}', '\u{6F}', '\u{6F}', '\u{6B}', '\u{6C}', '\u{65}', '\u{66}', '\u{74}', '\u{61}', '\u{72}', '\u{72}', '\u{6F}', '\u{77}'], '\u{21A9}', None),
        657 => (&['\u{68}', '\u{6F}', '\u{6F}', '\u{6B}', '\u{72}', '\u{69}', '\u{67}', '\u{68}', '\u{74}', '\u{61}', '\u{72}', '\u{72}', '\u{6F}', '\u{77}'], '\u{21AA}', None),
        658 => (&['\u{6C}', '\u{6F}', '\u{6F}', '\u{70}', '\u{61}', '\u{72}', '\u{72}', '\u{6F}', '\u{77}', '\u{6C}', '\u{65}', '\u{66}', '\u{74}'], '\u{21AB}', None),
        659 => (&['\u{6C}', '\u{6F}', '\u{6F}', '\u{70}', '\u{61}', '\u{72}', '\u{72}', '\u{6F}', '\u{77}', '\u{72}', '\u{69}', '\u{67}', '\u{68}', '\u{74}'], '\u{21AC}', None),
        660 => (&['\u{6C}', '\u{65}', '\u{66}', '\u{74}', '\u{68}', '\u{61}', '\u{72}', '\u{70}', '\u{6F}', '\u{6F}', '\u{6E}', '\u{75}', '\u{70}'], '\u{21BC}', None),
        661 => (&['\u{6C}', '\u{65}', '\u{66}', '\u{74}', '\u{68}', '\u{61}', '\u{72}', '\u{70}', '\u{6F}', '\u{6F}', '\u{6E}', '\u{64}', '\u{6F}', '\u{77}', '\u{6E}'], '\u{21BD}', None),
        662 => (&['\u{75}', '\u{70}', '\u{68}', '\u{61}', '\u{72}', '\u{70}', '\u{6F}', '\u{6F}', '\u{6E}', '\u{72}', '\u{69}', '\u{67}', '\u{68}', '\u{74}'], '\u{21BE}', None),
        663 => (&['\u{75}', '\u{70}', '\u{68}', '\u{61}', '\u{72}', '\u{70}', '\u{6F}', '\u{6F}', '\u{6E}', '\u{6C}', '\u{65}', '\u{66}', '\u{74}'], '\u{21BF}', None),
        664 => (&['\u{72}', '\u{69}', '\u{67}', '\u{68}', '\u{74}', '\u{68}', '\u{61}', '\u{72}', '\u{70}', '\u{6F}', '\u{6F}', '\u{6E}', '\u{75}', '\u{70}'], '\u{21C0}', None),
        665 => (&['\u{72}', '\u{69}', '\u{67}', '\u{68}', '\u{74}', '\u{68}', '\u{61}', '\u{72}', '\u{70}', '\u{6F}', '\u{6F}', '\u{6E}', '\u{64}', '\u{6F}', '\u{77}', '\u{6E}'], '\u{21C1}', None),
        666 => (&['\u{64}', '\u{6F}', '\u{77}', '\u{6E}', '\u{68}', '\u{61}', '\u{72}', '\u{70}', '\u{6F}', '\u{6F}', '\u{6E}', '\u{72}', '\u{69}', '\u{67}', '\u{68}', '\u{74}'], '\u{21C2}', None),
        667 => (&['\u{64}', '\u{6F}', '\u{77}', '\u{6E}', '\u{68}', '\u{61}', '\u{72}', '\u{70}', '\u{6F}', '\u{6F}', '\u{6E}', '\u{6C}', '\u{65}', '\u{66}', '\u{74}'], '\u{21C3}', None),
        668 => (&['\u{72}', '\u{69}', '\u{67}', '\u{68}', '\u{74}', '\u{73}', '\u{71}', '\u{75}', '\u{69}', '\u{67}', '\u{61}', '\u{72}', '\u{72}', '\u{6F}', '\u{77}'], '\u{21DD}', None),
        669 => (&['\u{6C}', '\u{65}', '\u{66}', '\u{74}', '\u{72}', '\u{69}', '\u{67}', '\u{68}', '\u{74}', '\u{73}', '\u{71}', '\u{75}', '\u{69}', '\u{67}', '\u{61}', '\u{72}', '\u{72}', '\u{6F}', '\u{77}'], '\u{21AD}', None),
        670 => (&['\u{55}', '\u{70}', '\u{41}', '\u{72}', '\u{72}', '\u{6F}', '\u{77}', '\u{44}', '\u{6F}', '\u{77}', '\u{6E}', '\u{41}', '\u{72}', '\u{72}', '\u{6F}', '\u{77}'], '\u{21C5}', None),
        671 => (&['\u{42}', '\u{61}', '\u{72}', '\u{77}', '\u{65}', '\u{64}'], '\u{2306}', None),
        _ => (&[], ' ', None),
    }
}

pub open spec fn spec_entity_block_42(i: usize) -> (Seq<char>, Seq<char>) {
    match i {
        672 => (seq!['\u{6C}', '\u{74}', '\u{68}', '\u{72}', '\u{65}', '\u{65}'], seq!['\u{22CB}']),
        673 => (seq!['\u{72}', '\u{74}', '\u{68}', '\u{72}', '\u{65}', '\u{65}'], seq!['\u{22CC}']),
        674 => (seq!['\u{64}', '\u{6F}', '\u{74}', '\u{65}', '\u{71}'], seq!['\u{2250}']),
        675 => (seq!['\u{64}', '\u{6F}', '\u{74}', '\u{65}', '\u{71}', '\u{64}', '\u{6F}', '\u{74}'], seq!['\u{2251}']),
        676 => (seq!['\u{20}', '\u{72}', '\u{69}', '\u{73}', '\u{69}', '\u{6E}', '\u{67}', '\u{64}', '\u{6F}', '\u{74}', '\u{73}', '\u{65}', '\u{71}'], seq!['\u{2253}']),
        677 => (seq!['\u{66}', '\u{61}', '\u{6C}', '\u{6C}', '\u{69}', '\u{6E}', '\u{67}', '\u{64}', '\u{6F}', '\u{74}', '\u{73}', '\u{65}', '\u{71}'], seq!['\u{2252}']),
        678 => (seq!['\u{65}', '\u{71}', '\u{63}', '\u{69}', '\u{72}', '\u{63}'], seq!['\u{2256}']),
        679 => (seq!['\u{63}', '\u{69}', '\u{72}', '\u{63}', '\u{65}', '\u{71}'], seq!['\u{2257}']),
        680 => (seq!['\u{74}', '\u{72}', '\u{69}', '\u{61}', '\u{6E}', '\u{67}', '\u{6C}', '\u{65}', '\u{71}'], seq!['\u{225C}']),
        681 => (seq!['\u{74}', '\u{68}', '\u{69}', '\u{63}', '\u{6B}', '\u{73}', '\u{69}', '\u{6D}'], seq!['\u{223C}']),
        682 => (seq!['\u{74}', '\u{68}', '\u{69}', '\u{63}', '\u{6B}', '\u{61}', '\u{70}', '\u{70}', '\u{72}', '\u{6F}', '\u{78}'], seq!['\u{2248}']),
        683 => (seq!['\u{61}', '\u{70}', '\u{70}', '\u{72}', '\u{6F}', '\u{78}', '\u{65}', '\u{71}'], seq!['\u{224A}']),
        684 => (seq!['\u{73}', '\u{75}', '\u{63}', '\u{63}', '\u{61}', '\u{70}', '\u{70}', '\u{72}', '\u{6F}', '\u{78}'], seq!['\u{2AB8}']),
        685 => (seq!['\u{70}', '\u{72}', '\u{65}', '\u{63}', '\u{61}', '\u{70}', '\u{70}', '\u{72}', '\u{6F}', '\u{78}'], seq!['\u{2AB7}']),
        686 => (seq!['\u{73}', '\u{75}', '\u{62}', '\u{73}', '\u{65}', '\u{74}', '\u{65}', '\u{71}', '\u{71}'], seq!['\u{2AC5}']),
        687 => (seq!['\u{73}', '\u{75}', '\u{70}', '\u{73}', '\u{65}', '\u{74}', '\u{65}', '\u{71}', '\u{71}'], seq!['\u{2AC6}']),
        _ => (Seq::empty(), Seq::empty()),
    }
}

fn entity_block_42(i: usize) -> (r: (&'static [char], char, Option<char>))
    ensures
        r.0@ == spec_entity_block_42(i).0,
        spec_entity_block_42(i).1 == (match r.2 {
            Some(c2) => seq![r.1, c2],
            None => seq![r.1],
        }) || spec_entity_block_42(i).1.len() == 0,
{
    match i {
        672 => (&['\u{6C}', '\u{74}', '\u{68}', '\u{72}', '\u{65}', '\u{65}'], '\u{22CB}', None),
        673 => (&['\u{72}', '\u{74}', '\u{68}', '\u{72}', '\u{65}', '\u{65}'], '\u{22CC}', None),
        674 => (&['\u{64}', '\u{6F}', '\u{74}', '\u{65}', '\u{71}'], '\u{2250}', None),
        675 => (&['\u{64}', '\u{6F}', '\u{74}', '\u{65}', '\u{71}', '\u{64}', '\u{6F}', '\u{74}'], '\u{2251}', None),
        676 => (&['\u{20}', '\u{72}', '\u{69}', '\u{73}', '\u{69}', '\u{6E}', '\u{67}', '\u{64}', '\u{6F}', '\u{74}', '\u{73}', '\u{65}', '\u{71}'], '\u{2253}', None),
        677 => (&['\u{66}', '\u{61}', '\u{6C}', '\u{6C}', '\u{69}', '\u{6E}', '\u{67}', '\u{64}', '\u{6F}', '\u{74}', '\u{73}', '\u{65}', '\u{71}'], '\u{2252}', None),
        678 => (&['\u{65}', '\u{71}', '\u{63}', '\u{69}', '\u{72}', '\u{63}'], '\u{2256}', None),
        679 => (&['\u{63}', '\u{69}', '\u{72}', '\u{63}', '\u{65}', '\u{71}'], '\u{2257}', None),
        680 => (&['\u{74}', '\u{72}', '\u{69}', '\u{61}', '\u{6E}', '\u{67}', '\u{6C}', '\u{65}', '\u{71}'], '\u{225C}', None),
        681 => (&['\u{74}', '\u{68}', '\u{69}', '\u{63}', '\u{6B}', '\u{73}', '\u{69}', '\u{6D}'], '\u{223C}', None),
        682 => (&['\u{74}', '\u{68}', '\u{69}', '\u{63}', '\u{6B}', '\u{61}', '\u{70}', '\u{70}', '\u{72}', '\u{6F}', '\u{78}'], '\u{2248}', None),
        683 => (&['\u{61}', '\u{70}', '\u{70}', '\u{72}', '\u{6F}', '\u{78}', '\u{65}', '\u{71}'], '\u{224A}', None),
        684 => (&['\u{73}', '\u{75}', '\u{63}', '\u{63}', '\u{61}', '\u{70}', '\u{70}', '\u{72}', '\u{6F}', '\u{78}'], '\u{2AB8}', None),
        685 => (&['\u{70}', '\u{72}', '\u{65}', '\u{63}', '\u{61}', '\u{70}', '\u{70}', '\u{72}', '\u{6F}', '\u{78}'], '\u{2AB7}', None),
        686 => (&['\u{73}', '\u{75}', '\u{62}', '\u{73}', '\u{65}', '\u{74}', '\u{65}', '\u{71}', '\u{71}'], '\u{2AC5}', None),
        687 => (&['\u{73}', '\u{75}', '\u{70}', '\u{73}', '\u{65}', '\u{74}', '\u{65}', '\u{71}', '\u{71}'], '\u{2AC6}', None),
        _ => (&[], ' ', None),
    }
}

pub open spec fn spec_entity_block_43(i: usize) -> (Seq<char>, Seq<char>) {
    match i {
        688 => (seq!['\u{73}', '\u{75}', '\u{62}', '\u{73}', '\u{65}', '\u{74}', '\u{6E}', '\u{65}', '\u{71}'], seq!['\u{228A}']),
        689 => (seq!['\u{73}', '\u{75}', '\u{70}', '\u{73}', '\u{65}', '\u{74}', '\u{6E}', '\u{65}', '\u{71}'], seq!['\u{228B}']),
        690 => (seq!['\u{76}', '\u{61}', '\u{72}', '\u{73}', '\u{75}', '\u{62}', '\u{73}', '\u{65}', '\u{74}', '\u{6E}', '\u{65}', '\u{71}'], seq!['\u{228A}']),
        691 => (seq!['\u{76}', '\u{61}', '\u{72}', '\u{73}', '\u{75}', '\u{70}', '\u{73}', '\u{65}', '\u{74}', '\u{6E}', '\u{65}', '\u{71}'], seq!['\u{228B}']),
        692 => (seq!['\u{6C}', '\u{65}', '\u{73}', '\u{73}', '\u{64}', '\u{6F}', '\u{74}'], seq!['\u{22D6}']),
        693 => (seq!['\u{67}', '\u{74}', '\u{72}', '\u{64}', '\u{6F}', '\u{74}'], seq!['\u{22D7}']),
        694 => (seq!['\u{6C}', '\u{6C}', '\u{6C}'], seq!['\u{22D8}']),
        695 => (seq!['\u{67}', '\u{67}', '\u{67}'], seq!['\u{22D9}']),
        696 => (seq!['\u{6C}', '\u{65}', '\u{73}', '\u{73}', '\u{65}', '\u{71}', '\u{67}', '\u{74}', '\u{72}'], seq!['\u{22DA}']),
        697 => (seq!['\u{67}', '\u{74}', '\u{72}', '\u{65}', '\u{71}', '\u{6C}', '\u{65}', '\u{73}', '\u{73}'], seq!['\u{22DB}']),
        698 => (seq!['\u{63}', '\u{75}', '\u{72}', '\u{6C}', '\u{79}', '\u{65}', '\u{71}', '\u{70}', '\u{72}', '\u{65}', '\u{63}'], seq!['\u{22DE}']),
        699 => (seq!['\u{63}', '\u{75}', '\u{72}', '\u{6C}', '\u{79}', '\u{65}', '\u{71}', '\u{73}', '\u{75}', '\u{63}', '\u{63}'], seq!['\u{22DF}']),
        700 => (seq!['\u{70}', '\u{72}', '\u{65}', '\u{63}', '\u{63}', '\u{75}', '\u{72}', '\u{6C}', '\u{79}', '\u{65}', '\u{71}'], seq!['\u{227C}']),
        701 => (seq!['\u{73}', '\u{75}', '\u{63}', '\u{63}', '\u{63}', '\u{75}', '\u{72}', '\u{6C}', '\u{79}', '\u{65}', '\u{71}'], seq!['\u{227D}']),
        702 => (seq!['\u{70}', '\u{72}', '\u{65}', '\u{63}', '\u{73}', '\u{69}', '\u{6D}'], seq!['\u{227E}']),
        703 => (seq!['\u{73}', '\u{75}', '\u{63}', '\u{63}', '\u{73}', '\u{69}', '\u{6D}'], seq!['\u{227F}']),
        _ => (Seq::empty(), Seq::empty()),
    }
}

fn entity_block_43(i: usize) -> (r: (&'static [char], char, Option<char>))
    ensures
        r.0@ == spec_entity_block_43(i).0,
        spec_entity_block_43(i).1 == (match r.2 {
            Some(c2) => seq![r.1, c2],
            None => seq![r.1],
        }) || spec_entity_block_43(i).1.len() == 0,
{
    match i {
        688 => (&['\u{73}', '\u{75}', '\u{62}', '\u{73}', '\u{65}', '\u{74}', '\u{6E}', '\u{65}', '\u{71}'], '\u{228A}', None),
        689 => (&['\u{73}', '\u{75}', '\u{70}', '\u{73}', '\u{65}', '\u{74}', '\u{6E}', '\u{65}', '\u{71}'], '\u{228B}', None),
        690 => (&['\u{76}', '\u{61}', '\u{72}', '\u{73}', '\u{75}', '\u{62}', '\u{73}', '\u{65}', '\u{74}', '\u{6E}', '\u{65}', '\u{71}'], '\u{228A}', None),
        691 => (&['\u{76}', '\u{61}', '\u{72}', '\u{73}', '\u{75}', '\u{70}', '\u{73}', '\u{65}', '\u{74}', '\u{6E}', '\u{65}', '\u{71}'], '\u{228B}', None),
        692 => (&['\u{6C}', '\u{65}', '\u{73}', '\u{73}', '\u{64}', '\u{6F}', '\u{74}'], '\u{22D6}', None),
        693 => (&['\u{67}', '\u{74}', '\u{72}', '\u{64}', '\u{6F}', '\u{74}'], '\u{22D7}', None),
        694 => (&['\u{6C}', '\u{6C}', '\u{6C}'], '\u{22D8}', None),
        695 => (&['\u{67}', '\u{67}', '\u{67}'], '\u{22D9}', None),
        696 => (&['\u{6C}', '\u{65}', '\u{73}', '\u{73}', '\u{65}', '\u{71}', '\u{67}', '\u{74}', '\u{72}'], '\u{22DA}', None),
        697 => (&['\u{67}', '\u{74}', '\u{72}', '\u{65}', '\u{71}', '\u{6C}', '\u{65}', '\u{73}', '\u{73}'], '\u{22DB}', None),
        698 => (&['\u{63}', '\u{75}', '\u{72}', '\u{6C}', '\u{79}', '\u{65}', '\u{71}', '\u{70}', '\u{72}', '\u{65}', '\u{63}'], '\u{22DE}', None),
        699 => (&['\u{63}', '\u{75}', '\u{72}', '\u{6C}', '\u{79}', '\u{65}', '\u{71}', '\u{73}', '\u{75}', '\u{63}', '\u{63}'], '\u{22DF}', None),
        700 => (&['\u{70}', '\u{72}', '\u{65}', '\u{63}', '\u{63}', '\u{75}', '\u{72}', '\u{6C}', '\u{79}', '\u{65}', '\u{71}'], '\u{227C}', None),
        701 => (&['\u{73}', '\u{75}', '\u{63}', '\u{63}', '\u{63}', '\u{75}', '\u{72}', '\u{6C}', '\u{79}', '\u{65}', '\u{71}'], '\u{227D}', None),
        702 => (&['\u{70}', '\u{72}', '\u{65}', '\u{63}', '\u{73}', '\u{69}', '\u{6D}'], '\u{227E}', None),
        703 => (&['\u{73}', '\u{75}', '\u{63}', '\u{63}', '\u{73}', '\u{69}', '\u{6D}'], '\u{227F}', None),
        _ => (&[], ' ', None),
    }
}

pub open spec fn spec_entity_block_44(i: usize) -> (Seq<char>, Seq<char>) {
    match i {
        704 => (seq!['\u{6E}', '\u{70}', '\u{72}', '\u{65}', '\u{63}'], seq!['\u{2280}']),
        705 => (seq!['\u{6E}', '\u{73}', '\u{75}', '\u{63}', '\u{63}'], seq!['\u{2281}']),
        706 => (seq!['\u{6E}', '\u{73}', '\u{69}', '\u{6D}'], seq!['\u{2241}']),
        707 => (seq!['\u{6E}', '\u{63}', '\u{6F}', '\u{6E}', '\u{67}'], seq!['\u{2247}']),
        708 => (seq!['\u{6E}', '\u{61}', '\u{70}', '\u{70}', '\u{72}', '\u{6F}', '\u{78}'], seq!['\u{2249}']),
        709 => (seq!['\u{6E}', '\u{65}', '\u{71}', '\u{75}', '\u{69}', '\u{76}'], seq!['\u{2262}']),
        710 => (seq!['\u{6E}', '\u{67}', '\u{65}', '\u{71}'], seq!['\u{2271}']),
        711 => (seq!['\u{6E}', '\u{6C}', '\u{65}', '\u{71}'], seq!['\u{2270}']),
        712 => (seq!['\u{6E}', '\u{67}', '\u{74}', '\u{72}'], seq!['\u{226F}']),
        713 => (seq!['\u{6E}', '\u{6C}', '\u{65}', '\u{73}', '\u{73}'], seq!['\u{226E}']),
        714 => (seq!['\u{6E}', '\u{67}', '\u{45}'], seq!['\u{2267}', '\u{338}']),
        715 => (seq!['\u{6E}', '\u{67}', '\u{65}'], seq!['\u{2271}']),
        716 => (seq!['\u{6E}', '\u{67}', '\u{65}', '\u{73}'], seq!['\u{2A7E}', '\u{338}']),
        717 => (seq!['\u{6E}', '\u{47}', '\u{67}'], seq!['\u{22D9}', '\u{338}']),
        718 => (seq!['\u{76}', '\u{65}', '\u{6C}', '\u{6C}', '\u{69}', '\u{70}'], seq!['\u{22EE}']),
        719 => (seq!['\u{63}', '\u{74}', '\u{64}', '\u{6F}', '\u{74}'], seq!['\u{22EF}']),
        _ => (Seq::empty(), Seq::empty()),
    }
}

fn entity_block_44(i: usize) -> (r: (&'static [char], char, Option<char>))
    ensures
        r.0@ == spec_entity_block_44(i).0,
        spec_entity_block_44(i).1 == (match r.2 {
            Some(c2) => seq![r.1, c2],
            None => seq![r.1],
        }) || spec_entity_block_44(i).1.len() == 0,
{
    match i {
        704 => (&['\u{6E}', '\u{70}', '\u{72}', '\u{65}', '\u{63}'], '\u{2280}', None),
        705 => (&['\u{6E}', '\u{73}', '\u{75}', '\u{63}', '\u{63}'], '\u{2281}', None),
        706 => (&['\u{6E}', '\u{73}', '\u{69}', '\u{6D}'], '\u{2241}', None),
        707 => (&['\u{6E}', '\u{63}', '\u{6F}', '\u{6E}', '\u{67}'], '\u{2247}', None),
        708 => (&['\u{6E}', '\u{61}', '\u{70}', '\u{70}', '\u{72}', '\u{6F}', '\u{78}'], '\u{2249}', None),
        709 => (&['\u{6E}', '\u{65}', '\u{71}', '\u{75}', '\u{69}', '\u{76}'], '\u{2262}', None),
        710 => (&['\u{6E}', '\u{67}', '\u{65}', '\u{71}'], '\u{2271}', None),
        711 => (&['\u{6E}', '\u{6C}', '\u{65}', '\u{71}'], '\u{2270}', None),
        712 => (&['\u{6E}', '\u{67}', '\u{74}', '\u{72}'], '\u{226F}', None),
        713 => (&['\u{6E}', '\u{6C}', '\u{65}', '\u{73}', '\u{73}'], '\u{226E}', None),
        714 => (&['\u{6E}', '\u{67}', '\u{45}'], '\u{2267}', Some('\u{338}')),
        715 => (&['\u{6E}', '\u{67}', '\u{65}'], '\u{2271}', None),
        716 => (&['\u{6E}', '\u{67}', '\u{65}', '\u{73}'], '\u{2A7E}', Some('\u{338}')),
        717 => (&['\u{6E}', '\u{47}', '\u{67}'], '\u{22D9}', Some('\u{338}')),
        718 => (&['\u{76}', '\u{65}', '\u{6C}', '\u{6C}', '\u{69}', '\u{70}'], '\u{22EE}', None),
        719 => (&['\u{63}', '\u{74}', '\u{64}', '\u{6F}', '\u{74}'], '\u{22EF}', None),
        _ => (&[], ' ', None),
    }
}

pub open spec fn spec_entity_block_45(i: usize) -> (Seq<char>, Seq<char>) {
    match i {
        720 => (seq!['\u{75}', '\u{74}', '\u{64}', '\u{6F}', '\u{74}'], seq!['\u{22F0}']),
        721 => (seq!['\u{64}', '\u{74}', '\u{64}', '\u{6F}', '\u{74}'], seq!['\u{22F1}']),
        722 => (seq!['\u{64}', '\u{69}', '\u{73}', '\u{69}', '\u{6E}'], seq!['\u{22F2}']),
        723 => (seq!['\u{69}', '\u{73}', '\u{69}', '\u{6E}', '\u{73}'], seq!['\u{22F3}']),
        724 => (seq!['\u{69}', '\u{73}', '\u{69}', '\u{6E}', '\u{64}', '\u{6F}', '\u{74}'], seq!['\u{22F5}']),
        725 => (seq!['\u{6E}', '\u{6F}', '\u{74}', '\u{69}', '\u{6E}', '\u{64}', '\u{6F}', '\u{74}'], seq!['\u{22F5}']),
        726 => (seq!['\u{6E}', '\u{6F}', '\u{74}', '\u{69}', '\u{6E}', '\u{76}', '\u{63}'], seq!['\u{22F6}']),
        727 => (seq!['\u{6E}', '\u{6F}', '\u{74}', '\u{69}', '\u{6E}', '\u{76}', '\u{62}'], seq!['\u{22F7}']),
        728 => (seq!['\u{69}', '\u{73}', '\u{69}', '\u{6E}', '\u{45}'], seq!['\u{22F9}']),
        729 => (seq!['\u{6E}', '\u{69}', '\u{73}', '\u{64}'], seq!['\u{22FA}']),
        730 => (seq!['\u{78}', '\u{6E}', '\u{69}', '\u{73}'], seq!['\u{22FB}']),
        731 => (seq!['\u{6E}', '\u{69}', '\u{73}'], seq!['\u{22FC}']),
        732 => (seq!['\u{6E}', '\u{6F}', '\u{74}', '\u{6E}', '\u{69}', '\u{76}', '\u{63}'], seq!['\u{22FD}']),
        733 => (seq!['\u{6E}', '\u{6F}', '\u{74}', '\u{6E}', '\u{69}', '\u{76}', '\u{62}'], seq!['\u{22FE}']),
        734 => (seq!['\u{20}', '\u{63}', '\u{6F}', '\u{6D}', '\u{70}', '\u{6C}', '\u{65}', '\u{6D}', '\u{65}', '\u{6E}', '\u{74}'], seq!['\u{2201}']),
        735 => (seq!['\u{65}', '\u{74}', '\u{68}', '\u{32}'], seq!['\u{F0}']),
        _ => (Seq::empty(), Seq::empty()),
    }
}

fn entity_block_45(i: usize) -> (r: (&'static [char], char, Option<char>))
    ensures
        r.0@ == spec_entity_block_45(i).0,
        spec_entity_block_45(i).1 == (match r.2 {
            Some(c2) => seq![r.1, c2],
            None => seq![r.1],
        }) || spec_entity_block_45(i).1.len() == 0,
{
    match i {
        720 => (&['\u{75}', '\u{74}', '\u{64}', '\u{6F}', '\u{74}'], '\u{22F0}', None),
        721 => (&['\u{64}', '\u{74}', '\u{64}', '\u{6F}', '\u{74}'], '\u{22F1}', None),
        722 => (&['\u{64}', '\u{69}', '\u{73}', '\u{69}', '\u{6E}'], '\u{22F2}', None),
        723 => (&['\u{69}', '\u{73}', '\u{69}', '\u{6E}', '\u{73}'], '\u{22F3}', None),
        724 => (&['\u{69}', '\u{73}', '\u{69}', '\u{6E}', '\u{64}', '\u{6F}', '\u{74}'], '\u{22F5}', None),
        725 => (&['\u{6E}', '\u{6F}', '\u{74}', '\u{69}', '\u{6E}', '\u{64}', '\u{6F}', '\u{74}'], '\u{22F5}', None),
        726 => (&['\u{6E}', '\u{6F}', '\u{74}', '\u{69}', '\u{6E}', '\u{76}', '\u{63}'], '\u{22F6}', None),
        727 => (&['\u{6E}', '\u{6F}', '\u{74}', '\u{69}', '\u{6E}', '\u{76}', '\u{62}'], '\u{22F7}', None),
        728 => (&['\u{69}', '\u{73}', '\u{69}', '\u{6E}', '\u{45}'], '\u{22F9}', None),
        729 => (&['\u{6E}', '\u{69}', '\u{73}', '\u{64}'], '\u{22FA}', None),
        730 => (&['\u{78}', '\u{6E}', '\u{69}', '\u{73}'], '\u{22FB}', None),
        731 => (&['\u{6E}', '\u{69}', '\u{73}'], '\u{22FC}', None),
        732 => (&['\u{6E}', '\u{6F}', '\u{74}', '\u{6E}', '\u{69}', '\u{76}', '\u{63}'], '\u{22FD}', None),
        733 => (&['\u{6E}', '\u{6F}', '\u{74}', '\u{6E}', '\u{69}', '\u{76}', '\u{62}'], '\u{22FE}', None),
        734 => (&['\u{20}', '\u{63}', '\u{6F}', '\u{6D}', '\u{70}', '\u{6C}', '\u{65}', '\u{6D}', '\u{65}', '\u{6E}', '\u{74}'], '\u{2201}', None),
        735 => (&['\u{65}', '\u{74}', '\u{68}', '\u{32}'], '\u{F0}', None),
        _ => (&[], ' ', None),
    }
}

pub open spec fn spec_entity_block_46(i: usize) -> (Seq<char>, Seq<char>) {
    match i {
        736 => (seq!['\u{20}', '\u{41}', '\u{62}', '\u{65}', '\u{6C}'], seq!['\u{212C}']),
        737 => (seq!['\u{62}', '\u{65}', '\u{72}', '\u{6E}', '\u{6F}', '\u{75}'], seq!['\u{212C}']),
        738 => (seq!['\u{42}', '\u{73}', '\u{63}', '\u{72}'], seq!['\u{212C}']),
        739 => (seq!['\u{43}', '\u{61}', '\u{79}', '\u{6C}', '\u{65}', '\u{79}', '\u{73}'], seq!['\u{212D}']),
        740 => (seq!['\u{63}', '\u{63}', '\u{75}', '\u{70}', '\u{73}'], seq!['\u{2A4C}']),
        741 => (seq!['\u{63}', '\u{63}', '\u{61}', '\u{70}', '\u{73}'], seq!['\u{2A4D}']),
        742 => (seq!['\u{6E}', '\u{75}', '\u{6D}', '\u{65}', '\u{72}', '\u{6F}'], seq!['\u{2116}']),
        743 => (seq!['\u{63}', '\u{6F}', '\u{70}', '\u{79}', '\u{73}', '\u{72}'], seq!['\u{2117}']),
        744 => (seq!['\u{69}', '\u{6E}', '\u{63}', '\u{61}', '\u{72}', '\u{65}', '\u{32}'], seq!['\u{2105}']),
        745 => (seq!['\u{6E}', '\u{75}', '\u{6D}', '\u{65}', '\u{72}', '\u{6F}', '\u{32}'], seq!['\u{2116}']),
        746 => (seq!['\u{72}', '\u{78}'], seq!['\u{211E}']),
        747 => (seq!['\u{74}', '\u{72}', '\u{61}', '\u{64}', '\u{65}', '\u{32}'], seq!['\u{2122}']),
        748 => (seq!['\u{4F}', '\u{68}', '\u{6D}'], seq!['\u{3A9}']),
        749 => (seq!['\u{6F}', '\u{68}', '\u{6D}'], seq!['\u{3C9}']),
        750 => (seq!['\u{6D}', '\u{68}', '\u{6F}'], seq!['\u{2127}']),
        751 => (seq!['\u{61}', '\u{6E}', '\u{67}', '\u{73}', '\u{74}', '\u{72}', '\u{6F}', '\u{6D}'], seq!['\u{C5}']),
        _ => (Seq::empty(), Seq::empty()),
    }
}

fn entity_block_46(i: usize) -> (r: (&'static [char], char, Option<char>))
    ensures
        r.0@ == spec_entity_block_46(i).0,
        spec_entity_block_46(i).1 == (match r.2 {
            Some(c2) => seq![r.1, c2],
            None => seq![r.1],
        }) || spec_entity_block_46(i).1.len() == 0,
{
    match i {
        736 => (&['\u{20}', '\u{41}', '\u{62}', '\u{65}', '\u{6C}'], '\u{212C}', None),
        737 => (&['\u{62}', '\u{65}', '\u{72}', '\u{6E}', '\u{6F}', '\u{75}'], '\u{212C}', None),
        738 => (&['\u{42}', '\u{73}', '\u{63}', '\u{72}'], '\u{212C}', None),
        739 => (&['\u{43}', '\u{61}', '\u{79}', '\u{6C}', '\u{65}', '\u{79}', '\u{73}'], '\u{212D}', None),
        740 => (&['\u{63}', '\u{63}', '\u{75}', '\u{70}', '\u{73}'], '\u{2A4C}', None),
        741 => (&['\u{63}', '\u{63}', '\u{61}', '\u{70}', '\u{73}'], '\u{2A4D}', None),
        742 => (&['\u{6E}', '\u{75}', '\u{6D}', '\u{65}', '\u{72}', '\u{6F}'], '\u{2116}', None),
        743 => (&['\u{63}', '\u{6F}', '\u{70}', '\u{79}', '\u{73}', '\u{72}'], '\u{2117}', None),
        744 => (&['\u{69}', '\u{6E}', '\u{63}', '\u{61}', '\u{72}', '\u{65}', '\u{32}'], '\u{2105}', None),
        745 => (&['\u{6E}', '\u{75}', '\u{6D}', '\u{65}', '\u{72}', '\u{6F}', '\u{32}'], '\u{2116}', None),
        746 => (&['\u{72}', '\u{78}'], '\u{211E}', None),
        747 => (&['\u{74}', '\u{72}', '\u{61}', '\u{64}', '\u{65}', '\u{32}'], '\u{2122}', None),
        748 => (&['\u{4F}', '\u{68}', '\u{6D}'], '\u{3A9}', None),
        749 => (&['\u{6F}', '\u{68}', '\u{6D}'], '\u{3C9}', None),
        750 => (&['\u{6D}', '\u{68}', '\u{6F}'], '\u{2127}', None),
        751 => (&['\u{61}', '\u{6E}', '\u{67}', '\u{73}', '\u{74}', '\u{72}', '\u{6F}', '\u{6D}'], '\u{C5}', None),
        _ => (&[], ' ', None),
    }
}

pub open spec fn spec_entity_block_47(i: usize) -> (Seq<char>, Seq<char>) {
    match i {
        752 => (seq!['\u{68}', '\u{62}', '\u{61}', '\u{72}'], seq!['\u{210F}']),
        753 => (seq!['\u{68}', '\u{73}', '\u{6C}', '\u{61}', '\u{73}', '\u{68}'], seq!['\u{210F}']),
        754 => (seq!['\u{65}', '\u{6C}', '\u{6C}'], seq!['\u{2113}']),
        755 => (seq!['\u{6E}', '\u{75}', '\u{6D}', '\u{65}', '\u{72}', '\u{6F}', '\u{33}'], seq!['\u{2116}']),
        756 => (seq!['\u{20}', '\u{6E}', '\u{61}', '\u{74}', '\u{75}', '\u{72}', '\u{61}', '\u{6C}', '\u{73}'], seq!['\u{2115}']),
        757 => (seq!['\u{69}', '\u{6E}', '\u{74}', '\u{65}', '\u{67}', '\u{65}', '\u{72}', '\u{73}'], seq!['\u{2124}']),
        758 => (seq!['\u{72}', '\u{61}', '\u{74}', '\u{69}', '\u{6F}', '\u{6E}', '\u{61}', '\u{6C}', '\u{73}'], seq!['\u{211A}']),
        759 => (seq!['\u{72}', '\u{65}', '\u{61}', '\u{6C}', '\u{73}'], seq!['\u{211D}']),
        760 => (seq!['\u{63}', '\u{6F}', '\u{6D}', '\u{70}', '\u{6C}', '\u{65}', '\u{78}', '\u{65}', '\u{73}'], seq!['\u{2102}']),
        761 => (seq!['\u{70}', '\u{72}', '\u{69}', '\u{6D}', '\u{65}', '\u{73}'], seq!['\u{2119}']),
        762 => (seq!['\u{20}', '\u{53}', '\u{75}', '\u{63}', '\u{68}', '\u{54}', '\u{68}', '\u{61}', '\u{74}'], seq!['\u{220B}']),
        763 => (seq!['\u{42}', '\u{61}', '\u{63}', '\u{6B}', '\u{73}', '\u{6C}', '\u{61}', '\u{73}', '\u{68}'], seq!['\u{2216}']),
        764 => (seq!['\u{73}', '\u{65}', '\u{74}', '\u{6D}', '\u{69}', '\u{6E}', '\u{75}', '\u{73}'], seq!['\u{2216}']),
        765 => (seq!['\u{73}', '\u{6D}', '\u{61}', '\u{6C}', '\u{6C}', '\u{73}', '\u{65}', '\u{74}', '\u{6D}', '\u{69}', '\u{6E}', '\u{75}', '\u{73}'], seq!['\u{2216}']),
        766 => (seq!['\u{61}', '\u{73}', '\u{74}'], seq!['\u{2217}']),
        767 => (seq!['\u{63}', '\u{69}', '\u{72}', '\u{63}', '\u{6C}', '\u{65}', '\u{64}', '\u{61}', '\u{73}', '\u{74}'], seq!['\u{229B}']),
        _ => (Seq::empty(), Seq::empty()),
    }
}

fn entity_block_47(i: usize) -> (r: (&'static [char], char, Option<char>))
    ensures
        r.0@ == spec_entity_block_47(i).0,
        spec_entity_block_47(i).1 == (match r.2 {
            Some(c2) => seq![r.1, c2],
            None => seq![r.1],
        }) || spec_entity_block_47(i).1.len() == 0,
{
    match i {
        752 => (&['\u{68}', '\u{62}', '\u{61}', '\u{72}'], '\u{210F}', None),
        753 => (&['\u{68}', '\u{73}', '\u{6C}', '\u{61}', '\u{73}', '\u{68}'], '\u{210F}', None),
        754 => (&['\u{65}', '\u{6C}', '\u{6C}'], '\u{2113}', None),
        755 => (&['\u{6E}', '\u{75}', '\u{6D}', '\u{65}', '\u{72}', '\u{6F}', '\u{33}'], '\u{2116}', None),
        756 => (&['\u{20}', '\u{6E}', '\u{61}', '\u{74}', '\u{75}', '\u{72}', '\u{61}', '\u{6C}', '\u{73}'], '\u{2115}', None),
        757 => (&['\u{69}', '\u{6E}', '\u{74}', '\u{65}', '\u{67}', '\u{65}', '\u{72}', '\u{73}'], '\u{2124}', None),
        758 => (&['\u{72}', '\u{61}', '\u{74}', '\u{69}', '\u{6F}', '\u{6E}', '\u{61}', '\u{6C}', '\u{73}'], '\u{211A}', None),
        759 => (&['\u{72}', '\u{65}', '\u{61}', '\u{6C}', '\u{73}'], '\u{211D}', None),
        760 => (&['\u{63}', '\u{6F}', '\u{6D}', '\u{70}', '\u{6C}', '\u{65}', '\u{78}', '\u{65}', '\u{73}'], '\u{2102}', None),
        761 => (&['\u{70}', '\u{72}', '\u{69}', '\u{6D}', '\u{65}', '\u{73}'], '\u{2119}', None),
        762 => (&['\u{20}', '\u{53}', '\u{75}', '\u{63}', '\u{68}', '\u{54}', '\u{68}', '\u{61}', '\u{74}'], '\u{220B}', None),
        763 => (&['\u{42}', '\u{61}', '\u{63}', '\u{6B}', '\u{73}', '\u{6C}', '\u{61}', '\u{73}', '\u{68}'], '\u{2216}', None),
        764 => (&['\u{73}', '\u{65}', '\u{74}', '\u{6D}', '\u{69}', '\u{6E}', '\u{75}', '\u{73}'], '\u{2216}', None),
        765 => (&['\u{73}', '\u{6D}', '\u{61}', '\u{6C}', '\u{6C}', '\u{73}', '\u{65}', '\u{74}', '\u{6D}', '\u{69}', '\u{6E}', '\u{75}', '\u{73}'], '\u{2216}', None),
        766 => (&['\u{61}', '\u{73}', '\u{74}'], '\u{2217}', None),
        767 => (&['\u{63}', '\u{69}', '\u{72}', '\u{63}', '\u{6C}', '\u{65}', '\u{64}', '\u{61}', '\u{73}', '\u{74}'], '\u{229B}', None),
        _ => (&[], ' ', None),
    }
}

pub open spec fn spec_entity_block_48(i: usize) -> (Seq<char>, Seq<char>) {
    match i {
        768 => (seq!['\u{63}', '\u{69}', '\u{72}', '\u{63}', '\u{6C}', '\u{65}', '\u{64}', '\u{63}', '\u{69}', '\u{72}', '\u{63}'], seq!['\u{229A}']),
        769 => (seq!['\u{63}', '\u{69}', '\u{72}', '\u{63}', '\u{6C}', '\u{65}', '\u{64}', '\u{64}', '\u{61}', '\u{73}', '\u{68}'], seq!['\u{229D}']),
        770 => (seq!['\u{6F}', '\u{64}', '\u{6F}', '\u{74}'], seq!['\u{2299}']),
        771 => (seq!['\u{6F}', '\u{6D}', '\u{69}', '\u{6E}', '\u{75}', '\u{73}'], seq!['\u{2296}']),
        772 => (seq!['\u{6F}', '\u{73}', '\u{6C}', '\u{61}', '\u{73}', '\u{68}'], seq!['\u{2298}']),
        773 => (seq!['\u{62}', '\u{6F}', '\u{78}', '\u{6D}', '\u{69}', '\u{6E}', '\u{75}', '\u{73}'], seq!['\u{229F}']),
        774 => (seq!['\u{62}', '\u{6F}', '\u{78}', '\u{70}', '\u{6C}', '\u{75}', '\u{73}'], seq!['\u{229E}']),
        775 => (seq!['\u{62}', '\u{6F}', '\u{78}', '\u{74}', '\u{69}', '\u{6D}', '\u{65}', '\u{73}'], seq!['\u{22A0}']),
        776 => (seq!['\u{62}', '\u{6F}', '\u{78}', '\u{64}', '\u{6F}', '\u{74}'], seq!['\u{22A1}']),
        777 => (seq!['\u{76}', '\u{64}', '\u{61}', '\u{73}', '\u{68}'], seq!['\u{22A2}']),
        778 => (seq!['\u{64}', '\u{61}', '\u{73}', '\u{68}', '\u{76}'], seq!['\u{22A3}']),
        779 => (seq!['\u{74}', '\u{6F}', '\u{70}', '\u{32}'], seq!['\u{22A4}']),
        780 => (seq!['\u{6D}', '\u{6F}', '\u{64}', '\u{65}', '\u{6C}', '\u{73}'], seq!['\u{22A7}']),
        781 => (seq!['\u{76}', '\u{44}', '\u{61}', '\u{73}', '\u{68}'], seq!['\u{22A8}']),
        782 => (seq!['\u{56}', '\u{64}', '\u{61}', '\u{73}', '\u{68}'], seq!['\u{22A9}']),
        783 => (seq!['\u{56}', '\u{76}', '\u{64}', '\u{61}', '\u{73}', '\u{68}'], seq!['\u{22AA}']),
        _ => (Seq::empty(), Seq::empty()),
    }
}

fn entity_block_48(i: usize) -> (r: (&'static [char], char, Option<char>))
    ensures
        r.0@ == spec_entity_block_48(i).0,
        spec_entity_block_48(i).1 == (match r.2 {
            Some(c2) => seq![r.1, c2],
            None => seq![r.1],
        }) || spec_entity_block_48(i).1.len() == 0,
{
    match i {
        768 => (&['\u{63}', '\u{69}', '\u{72}', '\u{63}', '\u{6C}', '\u{65}', '\u{64}', '\u{63}', '\u{69}', '\u{72}', '\u{63}'], '\u{229A}', None),
        769 => (&['\u{63}', '\u{69}', '\u{72}', '\u{63}', '\u{6C}', '\u{65}', '\u{64}', '\u{64}', '\u{61}', '\u{73}', '\u{68}'], '\u{229D}', None),
        770 => (&['\u{6F}', '\u{64}', '\u{6F}', '\u{74}'], '\u{2299}', None),
        771 => (&['\u{6F}', '\u{6D}', '\u{69}', '\u{6E}', '\u{75}', '\u{73}'], '\u{2296}', None),
        772 => (&['\u{6F}', '\u{73}', '\u{6C}', '\u{61}', '\u{73}', '\u{68}'], '\u{2298}', None),
        773 => (&['\u{62}', '\u{6F}', '\u{78}', '\u{6D}', '\u{69}', '\u{6E}', '\u{75}', '\u{73}'], '\u{229F}', None),
        774 => (&['\u{62}', '\u{6F}', '\u{78}', '\u{70}', '\u{6C}', '\u{75}', '\u{73}'], '\u{229E}', None),
        775 => (&['\u{62}', '\u{6F}', '\u{78}', '\u{74}', '\u{69}', '\u{6D}', '\u{65}', '\u{73}'], '\u{22A0}', None),
        776 => (&['\u{62}', '\u{6F}', '\u{78}', '\u{64}', '\u{6F}', '\u{74}'], '\u{22A1}', None),
        777 => (&['\u{76}', '\u{64}', '\u{61}', '\u{73}', '\u{68}'], '\u{22A2}', None),
        778 => (&['\u{64}', '\u{61}', '\u{73}', '\u{68}', '\u{76}'], '\u{22A3}', None),
        779 => (&['\u{74}', '\u{6F}', '\u{70}', '\u{32}'], '\u{22A4}', None),
        780 => (&['\u{6D}', '\u{6F}', '\u{64}', '\u{65}', '\u{6C}', '\u{73}'], '\u{22A7}', None),
        781 => (&['\u{76}', '\u{44}', '\u{61}', '\u{73}', '\u{68}'], '\u{22A8}', None),
        782 => (&['\u{56}', '\u{64}', '\u{61}', '\u{73}', '\u{68}'], '\u{22A9}', None),
        783 => (&['\u{56}', '\u{76}', '\u{64}', '\u{61}', '\u{73}', '\u{68}'], '\u{22AA}', None),
        _ => (&[], ' ', None),
    }
}

pub open spec fn spec_entity_block_49(i: usize) -> (Seq<char>, Seq<char>) {
    match i {
        784 => (seq!['\u{56}', '\u{44}', '\u{61}', '\u{73}', '\u{68}'], seq!['\u{22AB}']),
        785 => (seq!['\u{6E}', '\u{76}', '\u{64}', '\u{61}', '\u{73}', '\u{68}'], seq!['\u{22AC}']),
        786 => (seq!['\u{6E}', '\u{76}', '\u{44}', '\u{61}', '\u{73}', '\u{68}'], seq!['\u{22AD}']),
        787 => (seq!['\u{6E}', '\u{56}', '\u{64}', '\u{61}', '\u{73}', '\u{68}'], seq!['\u{22AE}']),
        788 => (seq!['\u{6E}', '\u{56}', '\u{44}', '\u{61}', '\u{73}', '\u{68}'], seq!['\u{22AF}']),
        789 => (seq!['\u{70}', '\u{72}', '\u{75}', '\u{72}', '\u{65}', '\u{6C}'], seq!['\u{22B0}']),
        790 => (seq!['\u{73}', '\u{63}', '\u{75}', '\u{72}', '\u{65}', '\u{6C}'], seq!['\u{22B1}']),
        791 => (seq!['\u{74}', '\u{72}', '\u{69}', '\u{61}', '\u{6E}', '\u{67}', '\u{6C}', '\u{65}', '\u{6C}', '\u{65}', '\u{66}', '\u{74}'], seq!['\u{22B2}']),
        792 => (seq!['\u{74}', '\u{72}', '\u{69}', '\u{61}', '\u{6E}', '\u{67}', '\u{6C}', '\u{65}', '\u{72}', '\u{69}', '\u{67}', '\u{68}', '\u{74}'], seq!['\u{22B3}']),
        793 => (seq!['\u{75}', '\u{6E}', '\u{6C}', '\u{68}', '\u{64}'], seq!['\u{22B4}']),
        794 => (seq!['\u{75}', '\u{6E}', '\u{72}', '\u{68}', '\u{64}'], seq!['\u{22B5}']),
        795 => (seq!['\u{6D}', '\u{75}', '\u{6C}', '\u{74}', '\u{69}', '\u{6D}', '\u{61}', '\u{70}'], seq!['\u{22B8}']),
        796 => (seq!['\u{6D}', '\u{75}', '\u{6D}', '\u{61}', '\u{70}'], seq!['\u{22B8}']),
        797 => (seq!['\u{73}', '\u{71}', '\u{73}', '\u{75}', '\u{62}', '\u{73}', '\u{65}', '\u{74}'], seq!['\u{228F}']),
        798 => (seq!['\u{73}', '\u{71}', '\u{73}', '\u{75}', '\u{70}', '\u{73}', '\u{65}', '\u{74}'], seq!['\u{2290}']),
        799 => (seq!['\u{73}', '\u{71}', '\u{73}', '\u{75}', '\u{62}'], seq!['\u{228F}']),
        _ => (Seq::empty(), Seq::empty()),
    }
}

fn entity_block_49(i: usize) -> (r: (&'static [char], char, Option<char>))
    ensures
        r.0@ == spec_entity_block_49(i).0,
        spec_entity_block_49(i).1 == (match r.2 {
            Some(c2) => seq![r.1, c2],
            None => seq![r.1],
        }) || spec_entity_block_49(i).1.len() == 0,
{
    match i {
        784 => (&['\u{56}', '\u{44}', '\u{61}', '\u{73}', '\u{68}'], '\u{22AB}', None),
        785 => (&['\u{6E}', '\u{76}', '\u{64}', '\u{61}', '\u{73}', '\u{68}'], '\u{22AC}', None),
        786 => (&['\u{6E}', '\u{76}', '\u{44}', '\u{61}', '\u{73}', '\u{68}'], '\u{22AD}', None),
        787 => (&['\u{6E}', '\u{56}', '\u{64}', '\u{61}', '\u{73}', '\u{68}'], '\u{22AE}', None),
        788 => (&['\u{6E}', '\u{56}', '\u{44}', '\u{61}', '\u{73}', '\u{68}'], '\u{22AF}', None),
        789 => (&['\u{70}', '\u{72}', '\u{75}', '\u{72}', '\u{65}', '\u{6C}'], '\u{22B0}', None),
        790 => (&['\u{73}', '\u{63}', '\u{75}', '\u{72}', '\u{65}', '\u{6C}'], '\u{22B1}', None),
        791 => (&['\u{74}', '\u{72}', '\u{69}', '\u{61}', '\u{6E}', '\u{67}', '\u{6C}', '\u{65}', '\u{6C}', '\u{65}', '\u{66}', '\u{74}'], '\u{22B2}', None),
        792 => (&['\u{74}', '\u{72}', '\u{69}', '\u{61}', '\u{6E}', '\u{67}', '\u{6C}', '\u{65}', '\u{72}', '\u{69}', '\u{67}', '\u{68}', '\u{74}'], '\u{22B3}', None),
        793 => (&['\u{75}', '\u{6E}', '\u{6C}', '\u{68}', '\u{64}'], '\u{22B4}', None),
        794 => (&['\u{75}', '\u{6E}', '\u{72}', '\u{68}', '\u{64}'], '\u{22B5}', None),
        795 => (&['\u{6D}', '\u{75}', '\u{6C}', '\u{74}', '\u{69}', '\u{6D}', '\u{61}', '\u{70}'], '\u{22B8}', None),
        796 => (&['\u{6D}', '\u{75}', '\u{6D}', '\u{61}', '\u{70}'], '\u{22B8}', None),
        797 => (&['\u{73}', '\u{71}', '\u{73}', '\u{75}', '\u{62}', '\u{73}', '\u{65}', '\u{74}'], '\u{228F}', None),
        798 => (&['\u{73}', '\u{71}', '\u{73}', '\u{75}', '\u{70}', '\u{73}', '\u{65}', '\u{74}'], '\u{2290}', None),
        799 => (&['\u{73}', '\u{71}', '\u{73}', '\u{75}', '\u{62}'], '\u{228F}', None),
        _ => (&[], ' ', None),
    }
}

pub open spec fn spec_entity_block_50(i: usize) -> (Seq<char>, Seq<char>) {
    match i {
        800 => (seq!['\u{73}', '\u{71}', '\u{73}', '\u{75}', '\u{70}'], seq!['\u{2290}']),
        801 => (seq!['\u{73}', '\u{71}', '\u{73}', '\u{75}', '\u{62}', '\u{73}', '\u{65}', '\u{74}', '\u{65}', '\u{71}'], seq!['\u{2291}']),
        802 => (seq!['\u{73}', '\u{71}', '\u{73}', '\u{75}', '\u{70}', '\u{73}', '\u{65}', '\u{74}', '\u{65}', '\u{71}'], seq!['\u{2292}']),
        803 => (seq!['\u{64}', '\u{69}', '\u{61}', '\u{6D}', '\u{6F}', '\u{6E}', '\u{64}'], seq!['\u{22C4}']),
        804 => (seq!['\u{63}', '\u{64}', '\u{6F}', '\u{74}', '\u{32}'], seq!['\u{22C5}']),
        805 => (seq!['\u{73}', '\u{74}', '\u{61}', '\u{72}', '\u{32}'], seq!['\u{22C6}']),
        806 => (seq!['\u{64}', '\u{69}', '\u{76}', '\u{69}', '\u{64}', '\u{65}', '\u{6F}', '\u{6E}', '\u{74}', '\u{69}', '\u{6D}', '\u{65}', '\u{73}'], seq!['\u{22C7}']),
        807 => (seq!['\u{62}', '\u{6F}', '\u{77}', '\u{74}', '\u{69}', '\u{65}'], seq!['\u{22C8}']),
        808 => (seq!['\u{6C}', '\u{74}', '\u{69}', '\u{6D}', '\u{65}', '\u{73}'], seq!['\u{22C9}']),
        809 => (seq!['\u{72}', '\u{74}', '\u{69}', '\u{6D}', '\u{65}', '\u{73}'], seq!['\u{22CA}']),
        810 => (seq!['\u{6C}', '\u{65}', '\u{66}', '\u{74}', '\u{74}', '\u{68}', '\u{72}', '\u{65}', '\u{65}', '\u{74}', '\u{69}', '\u{6D}', '\u{65}', '\u{73}'], seq!['\u{22CB}']),
        811 => (seq!['\u{72}', '\u{69}', '\u{67}', '\u{68}', '\u{74}', '\u{74}', '\u{68}', '\u{72}', '\u{65}', '\u{65}', '\u{74}', '\u{69}', '\u{6D}', '\u{65}', '\u{73}'], seq!['\u{22CC}']),
        812 => (seq!['\u{62}', '\u{61}', '\u{63}', '\u{6B}', '\u{73}', '\u{69}', '\u{6D}', '\u{65}', '\u{71}'], seq!['\u{22CD}']),
        813 => (seq!['\u{63}', '\u{75}', '\u{72}', '\u{6C}', '\u{79}', '\u{76}', '\u{65}', '\u{65}'], seq!['\u{22CE}']),
        814 => (seq!['\u{63}', '\u{75}', '\u{72}', '\u{6C}', '\u{79}', '\u{77}', '\u{65}', '\u{64}', '\u{67}', '\u{65}'], seq!['\u{22CF}']),
        815 => (seq!['\u{53}', '\u{75}', '\u{62}', '\u{73}', '\u{65}', '\u{74}'], seq!['\u{22D0}']),
        _ => (Seq::empty(), Seq::empty()),
    }
}

fn entity_block_50(i: usize) -> (r: (&'static [char], char, Option<char>))
    ensures
        r.0@ == spec_entity_block_50(i).0,
        spec_entity_block_50(i).1 == (match r.2 {
            Some(c2) => seq![r.1, c2],
            None => seq![r.1],
        }) || spec_entity_block_50(i).1.len() == 0,
{
    match i {
        800 => (&['\u{73}', '\u{71}', '\u{73}', '\u{75}', '\u{70}'], '\u{2290}', None),
        801 => (&['\u{73}', '\u{71}', '\u{73}', '\u{75}', '\u{62}', '\u{73}', '\u{65}', '\u{74}', '\u{65}', '\u{71}'], '\u{2291}', None),
        802 => (&['\u{73}', '\u{71}', '\u{73}', '\u{75}', '\u{70}', '\u{73}', '\u{65}', '\u{74}', '\u{65}', '\u{71}'], '\u{2292}', None),
        803 => (&['\u{64}', '\u{69}', '\u{61}', '\u{6D}', '\u{6F}', '\u{6E}', '\u{64}'], '\u{22C4}', None),
        804 => (&['\u{63}', '\u{64}', '\u{6F}', '\u{74}', '\u{32}'], '\u{22C5}', None),
        805 => (&['\u{73}', '\u{74}', '\u{61}', '\u{72}', '\u{32}'], '\u{22C6}', None),
        806 => (&['\u{64}', '\u{69}', '\u{76}', '\u{69}', '\u{64}', '\u{65}', '\u{6F}', '\u{6E}', '\u{74}', '\u{69}', '\u{6D}', '\u{65}', '\u{73}'], '\u{22C7}', None),
        807 => (&['\u{62}', '\u{6F}', '\u{77}', '\u{74}', '\u{69}', '\u{65}'], '\u{22C8}', None),
        808 => (&['\u{6C}', '\u{74}', '\u{69}', '\u{6D}', '\u{65}', '\u{73}'], '\u{22C9}', None),
        809 => (&['\u{72}', '\u{74}', '\u{69}', '\u{6D}', '\u{65}', '\u{73}'], '\u{22CA}', None),
        810 => (&['\u{6C}', '\u{65}', '\u{66}', '\u{74}', '\u{74}', '\u{68}', '\u{72}', '\u{65}', '\u{65}', '\u{74}', '\u{69}', '\u{6D}', '\u{65}', '\u{73}'], '\u{22CB}', None),
        811 => (&['\u{72}', '\u{69}', '\u{67}', '\u{68}', '\u{74}', '\u{74}', '\u{68}', '\u{72}', '\u{65}', '\u{65}', '\u{74}', '\u{69}', '\u{6D}', '\u{65}', '\u{73}'], '\u{22CC}', None),
        812 => (&['\u{62}', '\u{61}', '\u{63}', '\u{6B}', '\u{73}', '\u{69}', '\u{6D}', '\u{65}', '\u{71}'], '\u{22CD}', None),
        813 => (&['\u{63}', '\u{75}', '\u{72}', '\u{6C}', '\u{79}', '\u{76}', '\u{65}', '\u{65}'], '\u{22CE}', None),
        814 => (&['\u{63}', '\u{75}', '\u{72}', '\u{6C}', '\u{79}', '\u{77}', '\u{65}', '\u{64}', '\u{67}', '\u{65}'], '\u{22CF}', None),
        815 => (&['\u{53}', '\u{75}', '\u{62}', '\u{73}', '\u{65}', '\u{74}'], '\u{22D0}', None),
        _ => (&[], ' ', None),
    }
}

pub open spec fn spec_entity_block_51(i: usize) -> (Seq<char>, Seq<char>) {
    match i {
        816 => (seq!['\u{53}', '\u{75}', '\u{70}', '\u{73}', '\u{65}', '\u{74}'], seq!['\u{22D1}']),
        817 => (seq!['\u{43}', '\u{61}', '\u{70}', '\u{32}'], seq!['\u{22D2}']),
        818 => (seq!['\u{43}', '\u{75}', '\u{70}', '\u{32}'], seq!['\u{22D3}']),
        819 => (seq!['\u{70}', '\u{69}', '\u{74}', '\u{63}', '\u{68}', '\u{66}', '\u{6F}', '\u{72}', '\u{6B}'], seq!['\u{22D4}']),
        820 => (seq!['\u{6C}', '\u{65}', '\u{73}', '\u{73}', '\u{6C}', '\u{65}', '\u{73}', '\u{73}'], seq!['\u{2AA1}']),
        821 => (seq!['\u{67}', '\u{72}', '\u{65}', '\u{61}', '\u{74}', '\u{67}', '\u{72}', '\u{65}', '\u{61}', '\u{74}'], seq!['\u{2AA2}']),
        822 => (seq!['\u{70}', '\u{72}', '\u{65}', '\u{63}', '\u{6E}', '\u{65}', '\u{71}'], seq!['\u{2AB5}']),
        823 => (seq!['\u{73}', '\u{75}', '\u{63}', '\u{63}', '\u{6E}', '\u{65}', '\u{71}'], seq!['\u{2AB6}']),
        824 => (seq!['\u{70}', '\u{72}', '\u{65}', '\u{63}', '\u{65}', '\u{71}'], seq!['\u{2AAF}']),
        825 => (seq!['\u{73}', '\u{75}', '\u{63}', '\u{63}', '\u{65}', '\u{71}'], seq!['\u{2AB0}']),
        826 => (seq!['\u{47}', '\u{72}', '\u{61}', '\u{6E}', '\u{64}'], seq!['\u{2AA2}']),
        827 => (seq!['\u{4C}', '\u{6C}'], seq!['\u{22D8}']),
        828 => (seq!['\u{47}', '\u{67}'], seq!['\u{22D9}']),
        829 => (seq!['\u{71}', '\u{75}', '\u{65}', '\u{73}', '\u{74}', '\u{65}', '\u{71}'], seq!['\u{225F}']),
        830 => (seq!['\u{4E}', '\u{6F}', '\u{74}', '\u{45}', '\u{71}', '\u{75}', '\u{61}', '\u{6C}', '\u{54}', '\u{69}', '\u{6C}', '\u{64}', '\u{65}'], seq!['\u{2242}']),
        831 => (seq!['\u{6E}', '\u{6F}', '\u{74}', '\u{61}', '\u{70}', '\u{70}', '\u{72}', '\u{6F}', '\u{78}'], seq!['\u{2249}']),
        _ => (Seq::empty(), Seq::empty()),
    }
}

fn entity_block_51(i: usize) -> (r: (&'static [char], char, Option<char>))
    ensures
        r.0@ == spec_entity_block_51(i).0,
        spec_entity_block_51(i).1 == (match r.2 {
            Some(c2) => seq![r.1, c2],
            None => seq![r.1],
        }) || spec_entity_block_51(i).1.len() == 0,
{
    match i {
        816 => (&['\u{53}', '\u{75}', '\u{70}', '\u{73}', '\u{65}', '\u{74}'], '\u{22D1}', None),
        817 => (&['\u{43}', '\u{61}', '\u{70}', '\u{32}'], '\u{22D2}', None),
        818 => (&['\u{43}', '\u{75}', '\u{70}', '\u{32}'], '\u{22D3}', None),
        819 => (&['\u{70}', '\u{69}', '\u{74}', '\u{63}', '\u{68}', '\u{66}', '\u{6F}', '\u{72}', '\u{6B}'], '\u{22D4}', None),
        820 => (&['\u{6C}', '\u{65}', '\u{73}', '\u{73}', '\u{6C}', '\u{65}', '\u{73}', '\u{73}'], '\u{2AA1}', None),
        821 => (&['\u{67}', '\u{72}', '\u{65}', '\u{61}', '\u{74}', '\u{67}', '\u{72}', '\u{65}', '\u{61}', '\u{74}'], '\u{2AA2}', None),
        822 => (&['\u{70}', '\u{72}', '\u{65}', '\u{63}', '\u{6E}', '\u{65}', '\u{71}'], '\u{2AB5}', None),
        823 => (&['\u{73}', '\u{75}', '\u{63}', '\u{63}', '\u{6E}', '\u{65}', '\u{71}'], '\u{2AB6}', None),
        824 => (&['\u{70}', '\u{72}', '\u{65}', '\u{63}', '\u{65}', '\u{71}'], '\u{2AAF}', None),
        825 => (&['\u{73}', '\u{75}', '\u{63}', '\u{63}', '\u{65}', '\u{71}'], '\u{2AB0}', None),
        826 => (&['\u{47}', '\u{72}', '\u{61}', '\u{6E}', '\u{64}'], '\u{2AA2}', None),
        827 => (&['\u{4C}', '\u{6C}'], '\u{22D8}', None),
        828 => (&['\u{47}', '\u{67}'], '\u{22D9}', None),
        829 => (&['\u{71}', '\u{75}', '\u{65}', '\u{73}', '\u{74}', '\u{65}', '\u{71}'], '\u{225F}', None),
        830 => (&['\u{4E}', '\u{6F}', '\u{74}', '\u{45}', '\u{71}', '\u{75}', '\u{61}', '\u{6C}', '\u{54}', '\u{69}', '\u{6C}', '\u{64}', '\u{65}'], '\u{2242}', None),
        831 => (&['\u{6E}', '\u{6F}', '\u{74}', '\u{61}', '\u{70}', '\u{70}', '\u{72}', '\u{6F}', '\u{78}'], '\u{2249}', None),
        _ => (&[], ' ', None),
    }
}

pub open spec fn spec_entity_block_52(i: usize) -> (Seq<char>, Seq<char>) {
    match i {
        832 => (seq!['\u{61}', '\u{70}', '\u{70}', '\u{72}', '\u{6F}', '\u{78}'], seq!['\u{2248}']),
        833 => (seq!['\u{73}', '\u{69}', '\u{6D}', '\u{65}', '\u{71}'], seq!['\u{2243}']),
        834 => (seq!['\u{73}', '\u{69}', '\u{6D}', '\u{65}'], seq!['\u{2243}']),
        835 => (seq!['\u{6E}', '\u{73}', '\u{69}', '\u{6D}', '\u{65}'], seq!['\u{2244}']),
        836 => (seq!['\u{6E}', '\u{73}', '\u{69}', '\u{6D}', '\u{65}', '\u{71}'], seq!['\u{2244}']),
        837 => (seq!['\u{6E}', '\u{73}', '\u{69}', '\u{6D}', '\u{32}'], seq!['\u{2241}']),
        838 => (seq!['\u{62}', '\u{63}', '\u{6F}', '\u{6E}', '\u{67}'], seq!['\u{224C}']),
        839 => (seq!['\u{63}', '\u{75}', '\u{70}', '\u{64}', '\u{6F}', '\u{74}'], seq!['\u{228D}']),
        840 => (seq!['\u{55}', '\u{6E}', '\u{69}', '\u{6F}', '\u{6E}', '\u{50}', '\u{6C}', '\u{75}', '\u{73}'], seq!['\u{228E}']),
        841 => (seq!['\u{73}', '\u{71}', '\u{63}', '\u{75}', '\u{70}'], seq!['\u{2294}']),
        842 => (seq!['\u{73}', '\u{71}', '\u{63}', '\u{61}', '\u{70}'], seq!['\u{2293}']),
        843 => (seq!['\u{61}', '\u{6D}', '\u{61}', '\u{6C}', '\u{67}'], seq!['\u{2A3F}']),
        844 => (seq!['\u{64}', '\u{61}', '\u{67}', '\u{67}', '\u{65}', '\u{72}', '\u{33}'], seq!['\u{2020}']),
        845 => (seq!['\u{64}', '\u{64}', '\u{61}', '\u{67}', '\u{67}', '\u{65}', '\u{72}'], seq!['\u{2021}']),
        846 => (seq!['\u{44}', '\u{61}', '\u{67}', '\u{67}', '\u{65}', '\u{72}', '\u{33}'], seq!['\u{2021}']),
        847 => (seq!['\u{73}', '\u{68}', '\u{61}', '\u{72}', '\u{70}'], seq!['\u{266F}']),
        _ => (Seq::empty(), Seq::empty()),
    }
}

fn entity_block_52(i: usize) -> (r: (&'static [char], char, Option<char>))
    ensures
        r.0@ == spec_entity_block_52(i).0,
        spec_entity_block_52(i).1 == (match r.2 {
            Some(c2) => seq![r.1, c2],
            None => seq![r.1],
        }) || spec_entity_block_52(i).1.len() == 0,
{
    match i {
        832 => (&['\u{61}', '\u{70}', '\u{70}', '\u{72}', '\u{6F}', '\u{78}'], '\u{2248}', None),
        833 => (&['\u{73}', '\u{69}', '\u{6D}', '\u{65}', '\u{71}'], '\u{2243}', None),
        834 => (&['\u{73}', '\u{69}', '\u{6D}', '\u{65}'], '\u{2243}', None),
        835 => (&['\u{6E}', '\u{73}', '\u{69}', '\u{6D}', '\u{65}'], '\u{2244}', None),
        836 => (&['\u{6E}', '\u{73}', '\u{69}', '\u{6D}', '\u{65}', '\u{71}'], '\u{2244}', None),
        837 => (&['\u{6E}', '\u{73}', '\u{69}', '\u{6D}', '\u{32}'], '\u{2241}', None),
        838 => (&['\u{62}', '\u{63}', '\u{6F}', '\u{6E}', '\u{67}'], '\u{224C}', None),
        839 => (&['\u{63}', '\u{75}', '\u{70}', '\u{64}', '\u{6F}', '\u{74}'], '\u{228D}', None),
        840 => (&['\u{55}', '\u{6E}', '\u{69}', '\u{6F}', '\u{6E}', '\u{50}', '\u{6C}', '\u{75}', '\u{73}'], '\u{228E}', None),
        841 => (&['\u{73}', '\u{71}', '\u{63}', '\u{75}', '\u{70}'], '\u{2294}', None),
        842 => (&['\u{73}', '\u{71}', '\u{63}', '\u{61}', '\u{70}'], '\u{2293}', None),
        843 => (&['\u{61}', '\u{6D}', '\u{61}', '\u{6C}', '\u{67}'], '\u{2A3F}', None),
        844 => (&['\u{64}', '\u{61}', '\u{67}', '\u{67}', '\u{65}', '\u{72}', '\u{33}'], '\u{2020}', None),
        845 => (&['\u{64}', '\u{64}', '\u{61}', '\u{67}', '\u{67}', '\u{65}', '\u{72}'], '\u{2021}', None),
        846 => (&['\u{44}', '\u{61}', '\u{67}', '\u{67}', '\u{65}', '\u{72}', '\u{33}'], '\u{2021}', None),
        847 => (&['\u{73}', '\u{68}', '\u{61}', '\u{72}', '\u{70}'], '\u{266F}', None),
        _ => (&[], ' ', None),
    }
}

pub open spec fn spec_entity_block_53(i: usize) -> (Seq<char>, Seq<char>) {
    match i {
        848 => (seq!['\u{66}', '\u{6C}', '\u{61}', '\u{74}'], seq!['\u{266D}']),
        849 => (seq!['\u{6E}', '\u{61}', '\u{74}', '\u{75}', '\u{72}', '\u{61}', '\u{6C}'], seq!['\u{266E}']),
        850 => (seq!['\u{63}', '\u{6C}', '\u{75}', '\u{62}', '\u{73}', '\u{75}', '\u{69}', '\u{74}'], seq!['\u{2663}']),
        851 => (seq!['\u{73}', '\u{70}', '\u{61}', '\u{64}', '\u{65}', '\u{73}', '\u{75}', '\u{69}', '\u{74}'], seq!['\u{2660}']),
        852 => (seq!['\u{68}', '\u{65}', '\u{61}', '\u{72}', '\u{74}', '\u{73}', '\u{75}', '\u{69}', '\u{74}'], seq!['\u{2665}']),
        853 => (seq!['\u{64}', '\u{69}', '\u{61}', '\u{6D}', '\u{73}', '\u{75}', '\u{69}', '\u{74}'], seq!['\u{2666}']),
        854 => (seq!['\u{74}', '\u{65}', '\u{6C}', '\u{65}', '\u{70}', '\u{68}', '\u{6F}', '\u{6E}', '\u{65}'], seq!['\u{2706}']),
        855 => (seq!['\u{63}', '\u{69}', '\u{72}', '\u{63}', '\u{6C}', '\u{65}', '\u{64}', '\u{52}'], seq!['\u{AE}']),
        856 => (seq!['\u{63}', '\u{69}', '\u{72}', '\u{63}', '\u{6C}', '\u{65}', '\u{64}', '\u{53}'], seq!['\u{24C8}']),
        857 => (seq!['\u{63}', '\u{69}', '\u{72}', '\u{63}', '\u{6C}', '\u{65}', '\u{64}', '\u{43}'], seq!['\u{A9}']),
        858 => (seq!['\u{6E}', '\u{75}', '\u{6D}', '\u{65}', '\u{72}', '\u{6F}', '\u{34}'], seq!['\u{2116}']),
        859 => (seq!['\u{62}', '\u{69}', '\u{67}', '\u{73}', '\u{74}', '\u{61}', '\u{72}'], seq!['\u{2605}']),
        860 => (seq!['\u{62}', '\u{69}', '\u{67}', '\u{63}', '\u{69}', '\u{72}', '\u{63}', '\u{6C}', '\u{65}'], seq!['\u{25CB}']),
        861 => (seq!['\u{62}', '\u{6C}', '\u{61}', '\u{63}', '\u{6B}', '\u{73}', '\u{74}', '\u{61}', '\u{72}'], seq!['\u{2605}']),
        862 => (seq!['\u{77}', '\u{68}', '\u{69}', '\u{74}', '\u{65}', '\u{73}', '\u{74}', '\u{61}', '\u{72}'], seq!['\u{2606}']),
        863 => (seq!['\u{62}', '\u{6C}', '\u{61}', '\u{63}', '\u{6B}', '\u{63}', '\u{69}', '\u{72}', '\u{63}', '\u{6C}', '\u{65}'], seq!['\u{25CF}']),
        _ => (Seq::empty(), Seq::empty()),
    }
}

fn entity_block_53(i: usize) -> (r: (&'static [char], char, Option<char>))
    ensures
        r.0@ == spec_entity_block_53(i).0,
        spec_entity_block_53(i).1 == (match r.2 {
            Some(c2) => seq![r.1, c2],
            None => seq![r.1],
        }) || spec_entity_block_53(i).1.len() == 0,
{
    match i {
        848 => (&['\u{66}', '\u{6C}', '\u{61}', '\u{74}'], '\u{266D}', None),
        849 => (&['\u{6E}', '\u{61}', '\u{74}', '\u{75}', '\u{72}', '\u{61}', '\u{6C}'], '\u{266E}', None),
        850 => (&['\u{63}', '\u{6C}', '\u{75}', '\u{62}', '\u{73}', '\u{75}', '\u{69}', '\u{74}'], '\u{2663}', None),
        851 => (&['\u{73}', '\u{70}', '\u{61}', '\u{64}', '\u{65}', '\u{73}', '\u{75}', '\u{69}', '\u{74}'], '\u{2660}', None),
        852 => (&['\u{68}', '\u{65}', '\u{61}', '\u{72}', '\u{74}', '\u{73}', '\u{75}', '\u{69}', '\u{74}'], '\u{2665}', None),
        853 => (&['\u{64}', '\u{69}', '\u{61}', '\u{6D}', '\u{73}', '\u{75}', '\u{69}', '\u{74}'], '\u{2666}', None),
        854 => (&['\u{74}', '\u{65}', '\u{6C}', '\u{65}', '\u{70}', '\u{68}', '\u{6F}', '\u{6E}', '\u{65}'], '\u{2706}', None),
        855 => (&['\u{63}', '\u{69}', '\u{72}', '\u{63}', '\u{6C}', '\u{65}', '\u{64}', '\u{52}'], '\u{AE}', None),
        856 => (&['\u{63}', '\u{69}', '\u{72}', '\u{63}', '\u{6C}', '\u{65}', '\u{64}', '\u{53}'], '\u{24C8}', None),
        857 => (&['\u{63}', '\u{69}', '\u{72}', '\u{63}', '\u{6C}', '\u{65}', '\u{64}', '\u{43}'], '\u{A9}', None),
        858 => (&['\u{6E}', '\u{75}', '\u{6D}', '\u{65}', '\u{72}', '\u{6F}', '\u{34}'], '\u{2116}', None),
        859 => (&['\u{62}', '\u{69}', '\u{67}', '\u{73}', '\u{74}', '\u{61}', '\u{72}'], '\u{2605}', None),
        860 => (&['\u{62}', '\u{69}', '\u{67}', '\u{63}', '\u{69}', '\u{72}', '\u{63}', '\u{6C}', '\u{65}'], '\u{25CB}', None),
        861 => (&['\u{62}', '\u{6C}', '\u{61}', '\u{63}', '\u{6B}', '\u{73}', '\u{74}', '\u{61}', '\u{72}'], '\u{2605}', None),
        862 => (&['\u{77}', '\u{68}', '\u{69}', '\u{74}', '\u{65}', '\u{73}', '\u{74}', '\u{61}', '\u{72}'], '\u{2606}', None),
        863 => (&['\u{62}', '\u{6C}', '\u{61}', '\u{63}', '\u{6B}', '\u{63}', '\u{69}', '\u{72}', '\u{63}', '\u{6C}', '\u{65}'], '\u{25CF}', None),
        _ => (&[], ' ', None),
    }
}

pub open spec fn spec_entity_block_54(i: usize) -> (Seq<char>, Seq<char>) {
    match i {
        864 => (seq!['\u{77}', '\u{68}', '\u{69}', '\u{74}', '\u{65}', '\u{63}', '\u{69}', '\u{72}', '\u{63}', '\u{6C}', '\u{65}'], seq!['\u{25CB}']),
        865 => (seq!['\u{62}', '\u{6C}', '\u{61}', '\u{63}', '\u{6B}', '\u{73}', '\u{71}', '\u{75}', '\u{61}', '\u{72}', '\u{65}'], seq!['\u{25A0}']),
        866 => (seq!['\u{77}', '\u{68}', '\u{69}', '\u{74}', '\u{65}', '\u{73}', '\u{71}', '\u{75}', '\u{61}', '\u{72}', '\u{65}'], seq!['\u{25A1}']),
        867 => (seq!['\u{62}', '\u{6C}', '\u{61}', '\u{63}', '\u{6B}', '\u{64}', '\u{69}', '\u{61}', '\u{6D}', '\u{6F}', '\u{6E}', '\u{64}'], seq!['\u{25C6}']),
        868 => (seq!['\u{77}', '\u{68}', '\u{69}', '\u{74}', '\u{65}', '\u{64}', '\u{69}', '\u{61}', '\u{6D}', '\u{6F}', '\u{6E}', '\u{64}'], seq!['\u{25C7}']),
        869 => (seq!['\u{62}', '\u{6C}', '\u{61}', '\u{63}', '\u{6B}', '\u{74}', '\u{72}', '\u{69}', '\u{61}', '\u{6E}', '\u{67}', '\u{6C}', '\u{65}'], seq!['\u{25B2}']),
        870 => (seq!['\u{77}', '\u{68}', '\u{69}', '\u{74}', '\u{65}', '\u{74}', '\u{72}', '\u{69}', '\u{61}', '\u{6E}', '\u{67}', '\u{6C}', '\u{65}'], seq!['\u{25B3}']),
        871 => (seq!['\u{62}', '\u{6C}', '\u{61}', '\u{63}', '\u{6B}', '\u{74}', '\u{72}', '\u{69}', '\u{61}', '\u{6E}', '\u{67}', '\u{6C}', '\u{65}', '\u{64}', '\u{6F}', '\u{77}', '\u{6E}'], seq!['\u{25BC}']),
        872 => (seq!['\u{77}', '\u{68}', '\u{69}', '\u{74}', '\u{65}', '\u{74}', '\u{72}', '\u{69}', '\u{61}', '\u{6E}', '\u{67}', '\u{6C}', '\u{65}', '\u{64}', '\u{6F}', '\u{77}', '\u{6E}'], seq!['\u{25BD}']),
        873 => (seq!['\u{73}', '\u{70}', '\u{61}', '\u{64}', '\u{65}', '\u{73}', '\u{32}'], seq!['\u{2660}']),
        874 => (seq!['\u{63}', '\u{6C}', '\u{75}', '\u{62}', '\u{73}', '\u{32}'], seq!['\u{2663}']),
        875 => (seq!['\u{68}', '\u{65}', '\u{61}', '\u{72}', '\u{74}', '\u{73}', '\u{32}'], seq!['\u{2665}']),
        876 => (seq!['\u{64}', '\u{69}', '\u{61}', '\u{6D}', '\u{73}', '\u{32}'], seq!['\u{2666}']),
        877 => (seq!['\u{61}', '\u{6C}', '\u{65}', '\u{70}', '\u{68}'], seq!['\u{2135}']),
        878 => (seq!['\u{62}', '\u{65}', '\u{74}', '\u{68}'], seq!['\u{2136}']),
        879 => (seq!['\u{67}', '\u{69}', '\u{6D}', '\u{65}', '\u{6C}'], seq!['\u{2137}']),
        _ => (Seq::empty(), Seq::empty()),
    }
}

fn entity_block_54(i: usize) -> (r: (&'static [char], char, Option<char>))
    ensures
        r.0@ == spec_entity_block_54(i).0,
        spec_entity_block_54(i).1 == (match r.2 {
            Some(c2) => seq![r.1, c2],
            None => seq![r.1],
        }) || spec_entity_block_54(i).1.len() == 0,
{
    match i {
        864 => (&['\u{77}', '\u{68}', '\u{69}', '\u{74}', '\u{65}', '\u{63}', '\u{69}', '\u{72}', '\u{63}', '\u{6C}', '\u{65}'], '\u{25CB}', None),
        865 => (&['\u{62}', '\u{6C}', '\u{61}', '\u{63}', '\u{6B}', '\u{73}', '\u{71}', '\u{75}', '\u{61}', '\u{72}', '\u{65}'], '\u{25A0}', None),
        866 => (&['\u{77}', '\u{68}', '\u{69}', '\u{74}', '\u{65}', '\u{73}', '\u{71}', '\u{75}', '\u{61}', '\u{72}', '\u{65}'], '\u{25A1}', None),
        867 => (&['\u{62}', '\u{6C}', '\u{61}', '\u{63}', '\u{6B}', '\u{64}', '\u{69}', '\u{61}', '\u{6D}', '\u{6F}', '\u{6E}', '\u{64}'], '\u{25C6}', None),
        868 => (&['\u{77}', '\u{68}', '\u{69}', '\u{74}', '\u{65}', '\u{64}', '\u{69}', '\u{61}', '\u{6D}', '\u{6F}', '\u{6E}', '\u{64}'], '\u{25C7}', None),
        869 => (&['\u{62}', '\u{6C}', '\u{61}', '\u{63}', '\u{6B}', '\u{74}', '\u{72}', '\u{69}', '\u{61}', '\u{6E}', '\u{67}', '\u{6C}', '\u{65}'], '\u{25B2}', None),
        870 => (&['\u{77}', '\u{68}', '\u{69}', '\u{74}', '\u{65}', '\u{74}', '\u{72}', '\u{69}', '\u{61}', '\u{6E}', '\u{67}', '\u{6C}', '\u{65}'], '\u{25B3}', None),
        871 => (&['\u{62}', '\u{6C}', '\u{61}', '\u{63}', '\u{6B}', '\u{74}', '\u{72}', '\u{69}', '\u{61}', '\u{6E}', '\u{67}', '\u{6C}', '\u{65}', '\u{64}', '\u{6F}', '\u{77}', '\u{6E}'], '\u{25BC}', None),
        872 => (&['\u{77}', '\u{68}', '\u{69}', '\u{74}', '\u{65}', '\u{74}', '\u{72}', '\u{69}', '\u{61}', '\u{6E}', '\u{67}', '\u{6C}', '\u{65}', '\u{64}', '\u{6F}', '\u{77}', '\u{6E}'], '\u{25BD}', None),
        873 => (&['\u{73}', '\u{70}', '\u{61}', '\u{64}', '\u{65}', '\u{73}', '\u{32}'], '\u{2660}', None),
        874 => (&['\u{63}', '\u{6C}', '\u{75}', '\u{62}', '\u{73}', '\u{32}'], '\u{2663}', None),
        875 => (&['\u{68}', '\u{65}', '\u{61}', '\u{72}', '\u{74}', '\u{73}', '\u{32}'], '\u{2665}', None),
        876 => (&['\u{64}', '\u{69}', '\u{61}', '\u{6D}', '\u{73}', '\u{32}'], '\u{2666}', None),
        877 => (&['\u{61}', '\u{6C}', '\u{65}', '\u{70}', '\u{68}'], '\u{2135}', None),
        878 => (&['\u{62}', '\u{65}', '\u{74}', '\u{68}'], '\u{2136}', None),
        879 => (&['\u{67}', '\u{69}', '\u{6D}', '\u{65}', '\u{6C}'], '\u{2137}', None),
        _ => (&[], ' ', None),
    }
}

pub open spec fn spec_entity_block_55(i: usize) -> (Seq<char>, Seq<char>) {
    match i {
        880 => (seq!['\u{64}', '\u{61}', '\u{6C}', '\u{65}', '\u{74}', '\u{68}'], seq!['\u{2138}']),
        881 => (seq!['\u{65}', '\u{6C}', '\u{6C}', '\u{32}'], seq!['\u{2113}']),
        882 => (seq!['\u{77}', '\u{70}'], seq!['\u{2118}']),
        883 => (seq!['\u{52}', '\u{65}'], seq!['\u{211C}']),
        884 => (seq!['\u{49}', '\u{6D}'], seq!['\u{2111}']),
        885 => (seq!['\u{6F}', '\u{74}', '\u{69}', '\u{6D}', '\u{65}', '\u{73}', '\u{61}', '\u{73}'], seq!['\u{2A36}']),
        886 => (seq!['\u{6F}', '\u{70}', '\u{6C}', '\u{75}', '\u{73}', '\u{32}'], seq!['\u{2295}']),
        887 => (seq!['\u{6F}', '\u{74}', '\u{69}', '\u{6D}', '\u{65}', '\u{73}', '\u{32}'], seq!['\u{2297}']),
        888 => (seq!['\u{70}', '\u{6C}', '\u{75}', '\u{73}', '\u{64}', '\u{6F}'], seq!['\u{2214}']),
        889 => (seq!['\u{6D}', '\u{69}', '\u{6E}', '\u{75}', '\u{73}', '\u{64}', '\u{6F}'], seq!['\u{2238}']),
        890 => (seq!['\u{64}', '\u{6F}', '\u{74}', '\u{70}', '\u{6C}', '\u{75}', '\u{73}'], seq!['\u{2214}']),
        891 => (seq!['\u{73}', '\u{65}', '\u{74}', '\u{6D}', '\u{6E}'], seq!['\u{2216}']),
        892 => (seq!['\u{63}', '\u{6F}', '\u{6D}', '\u{70}', '\u{66}', '\u{6E}'], seq!['\u{2218}']),
        893 => (seq!['\u{63}', '\u{69}', '\u{72}'], seq!['\u{25CB}']),
        894 => (seq!['\u{63}', '\u{69}', '\u{72}', '\u{63}', '\u{32}'], seq!['\u{2218}']),
        895 => (seq!['\u{62}', '\u{75}', '\u{6C}', '\u{6C}', '\u{65}', '\u{74}'], seq!['\u{2219}']),
        _ => (Seq::empty(), Seq::empty()),
    }
}

fn entity_block_55(i: usize) -> (r: (&'static [char], char, Option<char>))
    ensures
        r.0@ == spec_entity_block_55(i).0,
        spec_entity_block_55(i).1 == (match r.2 {
            Some(c2) => seq![r.1, c2],
            None => seq![r.1],
        }) || spec_entity_block_55(i).1.len() == 0,
{
    match i {
        880 => (&['\u{64}', '\u{61}', '\u{6C}', '\u{65}', '\u{74}', '\u{68}'], '\u{2138}', None),
        881 => (&['\u{65}', '\u{6C}', '\u{6C}', '\u{32}'], '\u{2113}', None),
        882 => (&['\u{77}', '\u{70}'], '\u{2118}', None),
        883 => (&['\u{52}', '\u{65}'], '\u{211C}', None),
        884 => (&['\u{49}', '\u{6D}'], '\u{2111}', None),
        885 => (&['\u{6F}', '\u{74}', '\u{69}', '\u{6D}', '\u{65}', '\u{73}', '\u{61}', '\u{73}'], '\u{2A36}', None),
        886 => (&['\u{6F}', '\u{70}', '\u{6C}', '\u{75}', '\u{73}', '\u{32}'], '\u{2295}', None),
        887 => (&['\u{6F}', '\u{74}', '\u{69}', '\u{6D}', '\u{65}', '\u{73}', '\u{32}'], '\u{2297}', None),
        888 => (&['\u{70}', '\u{6C}', '\u{75}', '\u{73}', '\u{64}', '\u{6F}'], '\u{2214}', None),
        889 => (&['\u{6D}', '\u{69}', '\u{6E}', '\u{75}', '\u{73}', '\u{64}', '\u{6F}'], '\u{2238}', None),
        890 => (&['\u{64}', '\u{6F}', '\u{74}', '\u{70}', '\u{6C}', '\u{75}', '\u{73}'], '\u{2214}', None),
        891 => (&['\u{73}', '\u{65}', '\u{74}', '\u{6D}', '\u{6E}'], '\u{2216}', None),
        892 => (&['\u{63}', '\u{6F}', '\u{6D}', '\u{70}', '\u{66}', '\u{6E}'], '\u{2218}', None),
        893 => (&['\u{63}', '\u{69}', '\u{72}'], '\u{25CB}', None),
        894 => (&['\u{63}', '\u{69}', '\u{72}', '\u{63}', '\u{32}'], '\u{2218}', None),
        895 => (&['\u{62}', '\u{75}', '\u{6C}', '\u{6C}', '\u{65}', '\u{74}'], '\u{2219}', None),
        _ => (&[], ' ', None),
    }
}

pub open spec fn spec_entity_block_56(i: usize) -> (Seq<char>, Seq<char>) {
    match i {
        896 => (seq!['\u{69}', '\u{6E}', '\u{66}', '\u{69}', '\u{6E}', '\u{74}', '\u{69}', '\u{65}'], seq!['\u{29DC}']),
        897 => (seq!['\u{74}', '\u{69}', '\u{65}'], seq!['\u{2040}']),
        898 => (seq!['\u{66}', '\u{72}', '\u{6F}', '\u{77}', '\u{6E}', '\u{32}'], seq!['\u{2322}']),
        899 => (seq!['\u{73}', '\u{6D}', '\u{69}', '\u{6C}', '\u{65}', '\u{32}'], seq!['\u{2323}']),
        900 => (seq!['\u{6C}', '\u{61}', '\u{6E}', '\u{67}', '\u{6C}', '\u{65}'], seq!['\u{27E8}']),
        901 => (seq!['\u{72}', '\u{61}', '\u{6E}', '\u{67}', '\u{6C}', '\u{65}'], seq!['\u{27E9}']),
        902 => (seq!['\u{4C}', '\u{74}'], seq!['\u{226A}']),
        903 => (seq!['\u{47}', '\u{74}'], seq!['\u{226B}']),
        904 => (seq!['\u{4C}', '\u{74}', '\u{32}'], seq!['\u{226A}']),
        905 => (seq!['\u{47}', '\u{74}', '\u{32}'], seq!['\u{226B}']),
        906 => (seq!['\u{68}', '\u{6F}', '\u{65}'], seq!['\u{2218}']),
        907 => (seq!['\u{71}', '\u{75}', '\u{65}', '\u{73}', '\u{74}', '\u{32}'], seq!['\u{3F}']),
        908 => (seq!['\u{65}', '\u{78}', '\u{63}', '\u{6C}'], seq!['\u{21}']),
        909 => (seq!['\u{6E}', '\u{75}', '\u{6D}', '\u{32}'], seq!['\u{23}']),
        910 => (seq!['\u{64}', '\u{6F}', '\u{6C}', '\u{6C}', '\u{61}', '\u{72}', '\u{32}'], seq!['\u{24}']),
        911 => (seq!['\u{70}', '\u{65}', '\u{72}', '\u{63}', '\u{6E}', '\u{74}', '\u{32}'], seq!['\u{25}']),
        _ => (Seq::empty(), Seq::empty()),
    }
}

fn entity_block_56(i: usize) -> (r: (&'static [char], char, Option<char>))
    ensures
        r.0@ == spec_entity_block_56(i).0,
        spec_entity_block_56(i).1 == (match r.2 {
            Some(c2) => seq![r.1, c2],
            None => seq![r.1],
        }) || spec_entity_block_56(i).1.len() == 0,
{
    match i {
        896 => (&['\u{69}', '\u{6E}', '\u{66}', '\u{69}', '\u{6E}', '\u{74}', '\u{69}', '\u{65}'], '\u{29DC}', None),
        897 => (&['\u{74}', '\u{69}', '\u{65}'], '\u{2040}', None),
        898 => (&['\u{66}', '\u{72}', '\u{6F}', '\u{77}', '\u{6E}', '\u{32}'], '\u{2322}', None),
        899 => (&['\u{73}', '\u{6D}', '\u{69}', '\u{6C}', '\u{65}', '\u{32}'], '\u{2323}', None),
        900 => (&['\u{6C}', '\u{61}', '\u{6E}', '\u{67}', '\u{6C}', '\u{65}'], '\u{27E8}', None),
        901 => (&['\u{72}', '\u{61}', '\u{6E}', '\u{67}', '\u{6C}', '\u{65}'], '\u{27E9}', None),
        902 => (&['\u{4C}', '\u{74}'], '\u{226A}', None),
        903 => (&['\u{47}', '\u{74}'], '\u{226B}', None),
        904 => (&['\u{4C}', '\u{74}', '\u{32}'], '\u{226A}', None),
        905 => (&['\u{47}', '\u{74}', '\u{32}'], '\u{226B}', None),
        906 => (&['\u{68}', '\u{6F}', '\u{65}'], '\u{2218}', None),
        907 => (&['\u{71}', '\u{75}', '\u{65}', '\u{73}', '\u{74}', '\u{32}'], '\u{3F}', None),
        908 => (&['\u{65}', '\u{78}', '\u{63}', '\u{6C}'], '\u{21}', None),
        909 => (&['\u{6E}', '\u{75}', '\u{6D}', '\u{32}'], '\u{23}', None),
        910 => (&['\u{64}', '\u{6F}', '\u{6C}', '\u{6C}', '\u{61}', '\u{72}', '\u{32}'], '\u{24}', None),
        911 => (&['\u{70}', '\u{65}', '\u{72}', '\u{63}', '\u{6E}', '\u{74}', '\u{32}'], '\u{25}', None),
        _ => (&[], ' ', None),
    }
}

pub open spec fn spec_entity_block_57(i: usize) -> (Seq<char>, Seq<char>) {
    match i {
        912 => (seq!['\u{61}', '\u{6D}', '\u{70}', '\u{32}'], seq!['\u{26}']),
        913 => (seq!['\u{6C}', '\u{70}', '\u{61}', '\u{72}', '\u{32}'], seq!['\u{28}']),
        914 => (seq!['\u{72}', '\u{70}', '\u{61}', '\u{72}', '\u{32}'], seq!['\u{29}']),
        915 => (seq!['\u{61}', '\u{73}', '\u{74}', '\u{32}'], seq!['\u{2A}']),
        916 => (seq!['\u{70}', '\u{6C}', '\u{75}', '\u{73}', '\u{32}'], seq!['\u{2B}']),
        917 => (seq!['\u{63}', '\u{6F}', '\u{6D}', '\u{6D}', '\u{61}', '\u{32}'], seq!['\u{2C}']),
        918 => (seq!['\u{6D}', '\u{69}', '\u{6E}', '\u{75}', '\u{73}', '\u{32}'], seq!['\u{2D}']),
        919 => (seq!['\u{70}', '\u{65}', '\u{72}', '\u{69}', '\u{6F}', '\u{64}', '\u{32}'], seq!['\u{2E}']),
        920 => (seq!['\u{73}', '\u{6F}', '\u{6C}', '\u{33}'], seq!['\u{2F}']),
        921 => (seq!['\u{63}', '\u{6F}', '\u{6C}', '\u{6F}', '\u{6E}', '\u{32}'], seq!['\u{3A}']),
        922 => (seq!['\u{73}', '\u{65}', '\u{6D}', '\u{69}', '\u{32}'], seq!['\u{3B}']),
        923 => (seq!['\u{6C}', '\u{74}', '\u{32}'], seq!['\u{3C}']),
        924 => (seq!['\u{65}', '\u{71}', '\u{75}', '\u{61}', '\u{6C}', '\u{73}', '\u{32}'], seq!['\u{3D}']),
        925 => (seq!['\u{67}', '\u{74}', '\u{32}'], seq!['\u{3E}']),
        926 => (seq!['\u{71}', '\u{75}', '\u{65}', '\u{73}', '\u{74}', '\u{33}'], seq!['\u{3F}']),
        927 => (seq!['\u{63}', '\u{6F}', '\u{6D}', '\u{6D}', '\u{61}', '\u{74}', '\u{32}'], seq!['\u{40}']),
        _ => (Seq::empty(), Seq::empty()),
    }
}

fn entity_block_57(i: usize) -> (r: (&'static [char], char, Option<char>))
    ensures
        r.0@ == spec_entity_block_57(i).0,
        spec_entity_block_57(i).1 == (match r.2 {
            Some(c2) => seq![r.1, c2],
            None => seq![r.1],
        }) || spec_entity_block_57(i).1.len() == 0,
{
    match i {
        912 => (&['\u{61}', '\u{6D}', '\u{70}', '\u{32}'], '\u{26}', None),
        913 => (&['\u{6C}', '\u{70}', '\u{61}', '\u{72}', '\u{32}'], '\u{28}', None),
        914 => (&['\u{72}', '\u{70}', '\u{61}', '\u{72}', '\u{32}'], '\u{29}', None),
        915 => (&['\u{61}', '\u{73}', '\u{74}', '\u{32}'], '\u{2A}', None),
        916 => (&['\u{70}', '\u{6C}', '\u{75}', '\u{73}', '\u{32}'], '\u{2B}', None),
        917 => (&['\u{63}', '\u{6F}', '\u{6D}', '\u{6D}', '\u{61}', '\u{32}'], '\u{2C}', None),
        918 => (&['\u{6D}', '\u{69}', '\u{6E}', '\u{75}', '\u{73}', '\u{32}'], '\u{2D}', None),
        919 => (&['\u{70}', '\u{65}', '\u{72}', '\u{69}', '\u{6F}', '\u{64}', '\u{32}'], '\u{2E}', None),
        920 => (&['\u{73}', '\u{6F}', '\u{6C}', '\u{33}'], '\u{2F}', None),
        921 => (&['\u{63}', '\u{6F}', '\u{6C}', '\u{6F}', '\u{6E}', '\u{32}'], '\u{3A}', None),
        922 => (&['\u{73}', '\u{65}', '\u{6D}', '\u{69}', '\u{32}'], '\u{3B}', None),
        923 => (&['\u{6C}', '\u{74}', '\u{32}'], '\u{3C}', None),
        924 => (&['\u{65}', '\u{71}', '\u{75}', '\u{61}', '\u{6C}', '\u{73}', '\u{32}'], '\u{3D}', None),
        925 => (&['\u{67}', '\u{74}', '\u{32}'], '\u{3E}', None),
        926 => (&['\u{71}', '\u{75}', '\u{65}', '\u{73}', '\u{74}', '\u{33}'], '\u{3F}', None),
        927 => (&['\u{63}', '\u{6F}', '\u{6D}', '\u{6D}', '\u{61}', '\u{74}', '\u{32}'], '\u{40}', None),
        _ => (&[], ' ', None),
    }
}

pub open spec fn spec_entity_block_58(i: usize) -> (Seq<char>, Seq<char>) {
    match i {
        928 => (seq!['\u{6C}', '\u{73}', '\u{71}', '\u{62}', '\u{32}'], seq!['\u{5B}']),
        929 => (seq!['\u{62}', '\u{73}', '\u{6F}', '\u{6C}', '\u{32}'], seq!['\u{5C}']),
        930 => (seq!['\u{72}', '\u{73}', '\u{71}', '\u{62}', '\u{32}'], seq!['\u{5D}']),
        931 => (seq!['\u{68}', '\u{61}', '\u{74}'], seq!['\u{5E}']),
        932 => (seq!['\u{6C}', '\u{6F}', '\u{77}', '\u{62}', '\u{61}', '\u{72}'], seq!['\u{5F}']),
        933 => (seq!['\u{67}', '\u{72}', '\u{61}', '\u{76}', '\u{65}', '\u{32}'], seq!['\u{60}']),
        934 => (seq!['\u{6C}', '\u{63}', '\u{75}', '\u{62}', '\u{32}'], seq!['\u{7B}']),
        935 => (seq!['\u{76}', '\u{65}', '\u{72}', '\u{62}', '\u{61}', '\u{72}', '\u{32}'], seq!['\u{7C}']),
        936 => (seq!['\u{72}', '\u{63}', '\u{75}', '\u{62}', '\u{32}'], seq!['\u{7D}']),
        937 => (seq!['\u{74}', '\u{69}', '\u{6C}', '\u{64}', '\u{65}', '\u{32}'], seq!['\u{7E}']),
        938 => (seq!['\u{5A}', '\u{65}', '\u{72}', '\u{6F}', '\u{57}', '\u{69}', '\u{64}', '\u{74}', '\u{68}', '\u{53}', '\u{70}', '\u{61}', '\u{63}', '\u{65}'], seq!['\u{200B}']),
        939 => (seq!['\u{7A}', '\u{77}', '\u{73}'], seq!['\u{200B}']),
        _ => (Seq::empty(), Seq::empty()),
    }
}

fn entity_block_58(i: usize) -> (r: (&'static [char], char, Option<char>))
    ensures
        r.0@ == spec_entity_block_58(i).0,
        spec_entity_block_58(i).1 == (match r.2 {
            Some(c2) => seq![r.1, c2],
            None => seq![r.1],
        }) || spec_entity_block_58(i).1.len() == 0,
{
    match i {
        928 => (&['\u{6C}', '\u{73}', '\u{71}', '\u{62}', '\u{32}'], '\u{5B}', None),
        929 => (&['\u{62}', '\u{73}', '\u{6F}', '\u{6C}', '\u{32}'], '\u{5C}', None),
        930 => (&['\u{72}', '\u{73}', '\u{71}', '\u{62}', '\u{32}'], '\u{5D}', None),
        931 => (&['\u{68}', '\u{61}', '\u{74}'], '\u{5E}', None),
        932 => (&['\u{6C}', '\u{6F}', '\u{77}', '\u{62}', '\u{61}', '\u{72}'], '\u{5F}', None),
        933 => (&['\u{67}', '\u{72}', '\u{61}', '\u{76}', '\u{65}', '\u{32}'], '\u{60}', None),
        934 => (&['\u{6C}', '\u{63}', '\u{75}', '\u{62}', '\u{32}'], '\u{7B}', None),
        935 => (&['\u{76}', '\u{65}', '\u{72}', '\u{62}', '\u{61}', '\u{72}', '\u{32}'], '\u{7C}', None),
        936 => (&['\u{72}', '\u{63}', '\u{75}', '\u{62}', '\u{32}'], '\u{7D}', None),
        937 => (&['\u{74}', '\u{69}', '\u{6C}', '\u{64}', '\u{65}', '\u{32}'], '\u{7E}', None),
        938 => (&['\u{5A}', '\u{65}', '\u{72}', '\u{6F}', '\u{57}', '\u{69}', '\u{64}', '\u{74}', '\u{68}', '\u{53}', '\u{70}', '\u{61}', '\u{63}', '\u{65}'], '\u{200B}', None),
        939 => (&['\u{7A}', '\u{77}', '\u{73}'], '\u{200B}', None),
        _ => (&[], ' ', None),
    }
}

} // verus!
