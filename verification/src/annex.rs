//! Requirement weights of the DoD Assessment Methodology (Annex A) for the
//! 110 requirements of NIST SP 800-171 Rev 2, addressed by family and number
//! (`3.f.r`), together with the CMMC Level 1 practices among them.

use vstd::prelude::*;

use crate::scoring::{CmmcLevel, Priority, RequirementScore, RequirementScoreView, ScoreTable};
use crate::text::{decimal_pad2, push_char, push_decimal_pad2};

verus! {

/// Number of requirements in family `3.f` (families 1 to 14).
pub open spec fn family_size(f: nat) -> nat {
    if f == 1 { 22 }
    else if f == 2 { 3 }
    else if f == 3 { 9 }
    else if f == 4 { 9 }
    else if f == 5 { 11 }
    else if f == 6 { 3 }
    else if f == 7 { 6 }
    else if f == 8 { 9 }
    else if f == 9 { 2 }
    else if f == 10 { 6 }
    else if f == 11 { 3 }
    else if f == 12 { 4 }
    else if f == 13 { 16 }
    else if f == 14 { 7 }
    else { 0 }
}

/// Weight of requirement `3.f.r`: 5, 3 or 1 points, and 0 for the system
/// security plan (3.12.4), which carries no numeric weight.
pub open spec fn annex_points(f: nat, r: nat) -> u8 {
    if f == 1 {
        if r == 1 || r == 2 || r == 12 || r == 13 || r == 16 || r == 17 || r == 18 { 5 }
        else if r == 5 || r == 19 { 3 }
        else { 1 }
    } else if f == 2 {
        if r == 1 || r == 2 { 5 } else { 1 }
    } else if f == 3 {
        if r == 1 || r == 5 { 5 } else if r == 2 { 3 } else { 1 }
    } else if f == 4 {
        if r == 1 || r == 2 || r == 5 || r == 6 || r == 7 || r == 8 { 5 } else { 1 }
    } else if f == 5 {
        if r == 1 || r == 2 || r == 3 || r == 10 { 5 } else { 1 }
    } else if f == 6 {
        if r == 1 || r == 2 { 5 } else { 1 }
    } else if f == 7 {
        if r == 2 || r == 5 { 5 } else if r == 1 || r == 4 { 3 } else { 1 }
    } else if f == 8 {
        if r == 3 || r == 7 { 5 } else if r == 1 || r == 2 || r == 8 { 3 } else { 1 }
    } else if f == 9 {
        if r == 2 { 5 } else { 3 }
    } else if f == 10 {
        if r == 1 || r == 2 { 5 } else { 1 }
    } else if f == 11 {
        if r == 2 { 5 } else if r == 1 { 3 } else { 1 }
    } else if f == 12 {
        if r == 1 || r == 3 { 5 } else if r == 2 { 3 } else { 0 }
    } else if f == 13 {
        if r == 1 || r == 2 || r == 5 || r == 6 || r == 11 || r == 15 { 5 }
        else if r == 8 { 3 }
        else { 1 }
    } else {
        if r == 5 || r == 7 { 3 } else { 5 }
    }
}

/// Requirement `3.f.r` is one of the 17 CMMC Level 1 practices (FAR 52.204-21).
pub open spec fn is_level1(f: nat, r: nat) -> bool {
    ||| f == 1 && (r == 1 || r == 2 || r == 20 || r == 22)
    ||| f == 5 && (r == 1 || r == 2)
    ||| f == 8 && r == 3
    ||| f == 10 && (r == 1 || r == 3 || r == 4 || r == 5)
    ||| f == 13 && (r == 1 || r == 5)
    ||| f == 14 && (r == 1 || r == 2 || r == 4 || r == 5)
}

/// Priority that goes with a weight.
pub open spec fn priority_for_points(p: u8) -> Priority {
    if p == 3 {
        Priority::Medium
    } else if p == 1 {
        Priority::Low
    } else {
        Priority::High
    }
}

/// Rev 3 identifier of requirement `3.f.r`, e.g. `03.05.03`.
pub open spec fn annex_id(f: nat, r: nat) -> Seq<char> {
    seq!['0', '3', '.'] + decimal_pad2(f) + seq!['.'] + decimal_pad2(r)
}

/// Score of requirement `3.f.r`.
pub open spec fn annex_score(f: nat, r: nat) -> RequirementScoreView {
    RequirementScoreView {
        cmmc_level: if is_level1(f, r) { CmmcLevel::Level1 } else { CmmcLevel::Level2 },
        point_value: annex_points(f, r),
        is_foundational: is_level1(f, r),
        priority: priority_for_points(annex_points(f, r)),
        notes: None,
    }
}

/// The rows of family `3.f`, in requirement order.
pub open spec fn annex_family_rows(f: nat) -> ScoreTable {
    Seq::new(family_size(f), |i: int| (annex_id(f, (i + 1) as nat), annex_score(f, (i + 1) as nat)))
}

/// The rows of families `3.1` to `3.f`.
pub open spec fn annex_rows_upto(f: nat) -> ScoreTable
    decreases f,
{
    if f == 0 {
        Seq::empty()
    } else {
        annex_rows_upto((f - 1) as nat) + annex_family_rows(f)
    }
}

/// All 110 rows.
pub open spec fn annex_rows() -> ScoreTable {
    annex_rows_upto(14)
}

/// Number of requirements in family `3.f`.
pub fn family_size_of(f: u8) -> (n: u8)
    ensures
        n as nat == family_size(f as nat),
{
    match f {
        1 => 22,
        2 => 3,
        3 => 9,
        4 => 9,
        5 => 11,
        6 => 3,
        7 => 6,
        8 => 9,
        9 => 2,
        10 => 6,
        11 => 3,
        12 => 4,
        13 => 16,
        14 => 7,
        _ => 0,
    }
}

/// Weight of requirement `3.f.r`.
pub fn points_of(f: u8, r: u8) -> (p: u8)
    ensures
        p == annex_points(f as nat, r as nat),
{
    if f == 1 {
        if r == 1 || r == 2 || r == 12 || r == 13 || r == 16 || r == 17 || r == 18 { 5 }
        else if r == 5 || r == 19 { 3 }
        else { 1 }
    } else if f == 2 {
        if r == 1 || r == 2 { 5 } else { 1 }
    } else if f == 3 {
        if r == 1 || r == 5 { 5 } else if r == 2 { 3 } else { 1 }
    } else if f == 4 {
        if r == 1 || r == 2 || r == 5 || r == 6 || r == 7 || r == 8 { 5 } else { 1 }
    } else if f == 5 {
        if r == 1 || r == 2 || r == 3 || r == 10 { 5 } else { 1 }
    } else if f == 6 {
        if r == 1 || r == 2 { 5 } else { 1 }
    } else if f == 7 {
        if r == 2 || r == 5 { 5 } else if r == 1 || r == 4 { 3 } else { 1 }
    } else if f == 8 {
        if r == 3 || r == 7 { 5 } else if r == 1 || r == 2 || r == 8 { 3 } else { 1 }
    } else if f == 9 {
        if r == 2 { 5 } else { 3 }
    } else if f == 10 {
        if r == 1 || r == 2 { 5 } else { 1 }
    } else if f == 11 {
        if r == 2 { 5 } else if r == 1 { 3 } else { 1 }
    } else if f == 12 {
        if r == 1 || r == 3 { 5 } else if r == 2 { 3 } else { 0 }
    } else if f == 13 {
        if r == 1 || r == 2 || r == 5 || r == 6 || r == 11 || r == 15 { 5 }
        else if r == 8 { 3 }
        else { 1 }
    } else {
        if r == 5 || r == 7 { 3 } else { 5 }
    }
}

/// Whether requirement `3.f.r` is a CMMC Level 1 practice.
pub fn level1_of(f: u8, r: u8) -> (b: bool)
    ensures
        b == is_level1(f as nat, r as nat),
{
    (f == 1 && (r == 1 || r == 2 || r == 20 || r == 22))
        || (f == 5 && (r == 1 || r == 2))
        || (f == 8 && r == 3)
        || (f == 10 && (r == 1 || r == 3 || r == 4 || r == 5))
        || (f == 13 && (r == 1 || r == 5))
        || (f == 14 && (r == 1 || r == 2 || r == 4 || r == 5))
}

/// Rev 3 identifier of requirement `3.f.r`.
pub fn annex_id_of(f: u8, r: u8) -> (s: String)
    ensures
        s@ == annex_id(f as nat, r as nat),
{
    let mut s = String::new();
    push_char(&mut s, '0');
    push_char(&mut s, '3');
    push_char(&mut s, '.');
    push_decimal_pad2(&mut s, f as usize);
    push_char(&mut s, '.');
    push_decimal_pad2(&mut s, r as usize);
    assert(s@ =~= annex_id(f as nat, r as nat));
    s
}

/// Score of requirement `3.f.r`.
pub fn annex_score_of(f: u8, r: u8) -> (s: RequirementScore)
    ensures
        s@ == annex_score(f as nat, r as nat),
{
    let points = points_of(f, r);
    let level1 = level1_of(f, r);
    let priority = if points == 3 {
        Priority::Medium
    } else if points == 1 {
        Priority::Low
    } else {
        Priority::High
    };
    RequirementScore {
        cmmc_level: if level1 { CmmcLevel::Level1 } else { CmmcLevel::Level2 },
        point_value: points,
        is_foundational: level1,
        priority,
        notes: None,
    }
}

} // verus!
