//! The weight that the built-in scoring table gives each requirement, listed
//! requirement by requirement as the DoD Assessment Methodology (Annex A)
//! publishes them, and the proof that the table carries exactly these.

use vstd::prelude::*;

use crate::annex::{annex_family_rows, annex_id, annex_rows, annex_rows_upto, annex_score, family_size};
use crate::poam::{validation_for, PoamEligibility};
use crate::scoring::{
    CmmcLevel, insert_all, key_index, keys_distinct, lemma_annex_id_normalized, lemma_key_index, score_of, Priority,
    ScoreTable,
};
use crate::text::{
    decimal, decimal_pad2, lemma_decimal_pad2, lemma_digits_lack, lemma_parse_decimal_pad2, lemma_split_three,
    parse_u8_spec, split_fields,
};

verus! {

/// Requirement `3.f.r` is one that Annex A weighs 5 points.
pub open spec fn five_point_requirement(f: nat, r: nat) -> bool {
    ||| f == 1 && (r == 1 || r == 2 || r == 12 || r == 13 || r == 16 || r == 17 || r == 18)
    ||| f == 2 && (r == 1 || r == 2)
    ||| f == 3 && (r == 1 || r == 5)
    ||| f == 4 && (r == 1 || r == 2 || r == 5 || r == 6 || r == 7 || r == 8)
    ||| f == 5 && (r == 1 || r == 2 || r == 3 || r == 10)
    ||| f == 6 && (r == 1 || r == 2)
    ||| f == 7 && (r == 2 || r == 5)
    ||| f == 8 && (r == 3 || r == 7)
    ||| f == 9 && (r == 2)
    ||| f == 10 && (r == 1 || r == 2)
    ||| f == 11 && (r == 2)
    ||| f == 12 && (r == 1 || r == 3)
    ||| f == 13 && (r == 1 || r == 2 || r == 5 || r == 6 || r == 11 || r == 15)
    ||| f == 14 && (r == 1 || r == 2 || r == 3 || r == 4 || r == 6)
}

/// Requirement `3.f.r` is one that Annex A weighs 3 points.
pub open spec fn three_point_requirement(f: nat, r: nat) -> bool {
    ||| f == 1 && (r == 5 || r == 19)
    ||| f == 3 && (r == 2)
    ||| f == 7 && (r == 1 || r == 4)
    ||| f == 8 && (r == 1 || r == 2 || r == 8)
    ||| f == 9 && (r == 1)
    ||| f == 11 && (r == 1)
    ||| f == 12 && (r == 2)
    ||| f == 13 && (r == 8)
    ||| f == 14 && (r == 5 || r == 7)
}

/// Requirement `3.f.r` is one that Annex A weighs 1 point.
pub open spec fn one_point_requirement(f: nat, r: nat) -> bool {
    ||| f == 1 && (r == 3 || r == 4 || r == 6 || r == 7 || r == 8 || r == 9 || r == 10 || r == 11 || r == 14 || r == 15 || r == 20 || r == 21 || r == 22)
    ||| f == 2 && (r == 3)
    ||| f == 3 && (r == 3 || r == 4 || r == 6 || r == 7 || r == 8 || r == 9)
    ||| f == 4 && (r == 3 || r == 4 || r == 9)
    ||| f == 5 && (r == 4 || r == 5 || r == 6 || r == 7 || r == 8 || r == 9 || r == 11)
    ||| f == 6 && (r == 3)
    ||| f == 7 && (r == 3 || r == 6)
    ||| f == 8 && (r == 4 || r == 5 || r == 6 || r == 9)
    ||| f == 10 && (r == 3 || r == 4 || r == 5 || r == 6)
    ||| f == 11 && (r == 3)
    ||| f == 13 && (r == 3 || r == 4 || r == 7 || r == 9 || r == 10 || r == 12 || r == 13 || r == 14 || r == 16)
}

/// The built-in table (the one `ScoringDatabase::new` builds).
pub open spec fn default_table() -> ScoreTable {
    insert_all(Seq::empty(), annex_rows())
}

/// The built-in table scores requirement `3.f.r`, under its Rev 3 identifier,
/// with `points` points and the given priority.
pub open spec fn default_weighs(f: nat, r: nat, points: u8, priority: Priority) -> bool {
    match score_of(default_table(), annex_id(f, r)) {
        Some(s) => s.point_value == points && s.priority == priority,
        None => false,
    }
}

/// The family number (second field) of an identifier `03.f.r`.
spec fn id_family(id: Seq<char>) -> Option<u8> {
    let parts = split_fields(id, '.');
    if parts.len() == 3 {
        parse_u8_spec(parts[1])
    } else {
        None
    }
}

/// The requirement number (third field) of an identifier `03.f.r`.
spec fn id_number(id: Seq<char>) -> Option<u8> {
    let parts = split_fields(id, '.');
    if parts.len() == 3 {
        parse_u8_spec(parts[2])
    } else {
        None
    }
}

/// The identifier of `3.f.r` gives back `f` and `r`.
proof fn lemma_annex_id_fields(f: nat, r: nat)
    requires
        f <= 255,
        r <= 255,
    ensures
        id_family(annex_id(f, r)) == Some(f as u8),
        id_number(annex_id(f, r)) == Some(r as u8),
{
    let p3 = decimal_pad2(3);
    let pf = decimal_pad2(f);
    let pr = decimal_pad2(r);
    assert(p3 =~= seq!['0', '3']);
    lemma_decimal_pad2(3);
    lemma_decimal_pad2(f);
    lemma_decimal_pad2(r);
    lemma_digits_lack(p3, '.');
    lemma_digits_lack(pf, '.');
    lemma_digits_lack(pr, '.');
    assert(annex_id(f, r) =~= p3 + seq!['.'] + pf + seq!['.'] + pr);
    lemma_split_three(p3, pf, pr, '.');
    lemma_parse_decimal_pad2(f as u8);
    lemma_parse_decimal_pad2(r as u8);
}

/// Row `r` of family `f` stands, among the rows of the first `upto` families,
/// right after the rows of the families before `f`.
proof fn lemma_annex_row_at(f: nat, r: nat, upto: nat)
    requires
        1 <= f <= upto <= 14,
        1 <= r <= family_size(f),
    ensures
        annex_rows_upto((f - 1) as nat).len() + r - 1 < annex_rows_upto(upto).len(),
        annex_rows_upto(upto)[annex_rows_upto((f - 1) as nat).len() + r - 1] == (
            annex_id(f, r),
            annex_score(f, r),
        ),
    decreases upto,
{
    let prev = annex_rows_upto((upto - 1) as nat);
    let fam = annex_family_rows(upto);
    assert(annex_rows_upto(upto) == prev + fam);
    if f < upto {
        lemma_annex_row_at(f, r, (upto - 1) as nat);
    } else {
        let k = prev.len() + r - 1;
        assert(annex_rows_upto(upto)[k] == fam[r - 1]);
    }
}

/// Every row of the first `upto` families is keyed by an identifier of one
/// of those families.
proof fn lemma_annex_row_families(upto: nat)
    requires
        upto <= 14,
    ensures
        forall|i: int|
            0 <= i < annex_rows_upto(upto).len() ==> (#[trigger] id_family(annex_rows_upto(upto)[i].0))
                is Some && 1 <= id_family(annex_rows_upto(upto)[i].0).unwrap() <= upto,
    decreases upto,
{
    if upto > 0 {
        lemma_annex_row_families((upto - 1) as nat);
        let prev = annex_rows_upto((upto - 1) as nat);
        let fam = annex_family_rows(upto);
        let all = annex_rows_upto(upto);
        assert(all == prev + fam);
        assert forall|i: int| 0 <= i < all.len() implies (#[trigger] id_family(all[i].0)) is Some && 1
            <= id_family(all[i].0).unwrap() <= upto by {
            if i < prev.len() {
                assert(all[i] == prev[i]);
            } else {
                let k = i - prev.len();
                assert(all[i] == fam[k]);
                assert(family_size(upto) <= 22);
                lemma_annex_id_fields(upto, (k + 1) as nat);
            }
        }
    }
}

/// No identifier occurs twice among the rows of the first `upto` families.
proof fn lemma_annex_rows_distinct(upto: nat)
    requires
        upto <= 14,
    ensures
        keys_distinct(annex_rows_upto(upto)),
    decreases upto,
{
    if upto > 0 {
        lemma_annex_rows_distinct((upto - 1) as nat);
        lemma_annex_row_families((upto - 1) as nat);
        let prev = annex_rows_upto((upto - 1) as nat);
        let fam = annex_family_rows(upto);
        let all = annex_rows_upto(upto);
        assert(all == prev + fam);
        assert(family_size(upto) <= 22);
        assert forall|i: int, j: int| 0 <= i < j < all.len() implies all[i].0 != all[j].0 by {
            if j < prev.len() {
                assert(all[i] == prev[i]);
                assert(all[j] == prev[j]);
            } else if i < prev.len() {
                let kj = j - prev.len();
                assert(all[i] == prev[i]);
                assert(all[j] == fam[kj]);
                lemma_annex_id_fields(upto, (kj + 1) as nat);
                assert(id_family(prev[i].0).unwrap() < upto);
            } else {
                let ki = i - prev.len();
                let kj = j - prev.len();
                assert(all[i] == fam[ki]);
                assert(all[j] == fam[kj]);
                lemma_annex_id_fields(upto, (ki + 1) as nat);
                lemma_annex_id_fields(upto, (kj + 1) as nat);
            }
        }
    }
}

/// Storing rows with distinct identifiers into an empty table gives those
/// rows, in order.
proof fn lemma_insert_all_distinct(rows: ScoreTable)
    requires
        keys_distinct(rows),
    ensures
        insert_all(Seq::empty(), rows) == rows,
    decreases rows.len(),
{
    if rows.len() > 0 {
        let d = rows.drop_last();
        assert(keys_distinct(d)) by {
            assert forall|i: int, j: int| 0 <= i < j < d.len() implies d[i].0 != d[j].0 by {
                assert(d[i] == rows[i]);
                assert(d[j] == rows[j]);
            }
        }
        lemma_insert_all_distinct(d);
        let id = rows.last().0;
        lemma_key_index(d, id);
        match key_index(d, id) {
            Some(j) => {
                assert(d[j] == rows[j]);
                assert(rows[j].0 != rows[rows.len() - 1].0);
            },
            None => {},
        }
        assert(d.push(rows.last()) =~= rows);
    }
}

/// The built-in table scores requirement `3.f.r` by its Annex A row.
proof fn lemma_default_score(f: nat, r: nat)
    requires
        1 <= f <= 14,
        1 <= r <= family_size(f),
    ensures
        score_of(default_table(), annex_id(f, r)) == Some(annex_score(f, r)),
{
    let rows = annex_rows();
    let id = annex_id(f, r);
    lemma_annex_rows_distinct(14);
    lemma_insert_all_distinct(rows);
    lemma_annex_row_at(f, r, 14);
    let k = annex_rows_upto((f - 1) as nat).len() + r - 1;
    assert(rows[k].0 == id);
    lemma_key_index(rows, id);
    match key_index(rows, id) {
        Some(j) => {
            if j < k {
                assert(rows[j].0 != rows[k].0);
            } else if j > k {
                assert(rows[k].0 != rows[j].0);
            }
        },
        None => {},
    }
}

/// The built-in table carries the Annex A weight of every requirement,
/// requirement by requirement: the five-point requirements score 5 points at
/// high priority, the three-point ones 3 points at medium priority, the
/// one-point ones 1 point at low priority, and the system security plan
/// (3.12.4) 0 points; these are all 110 rows of the table.
pub proof fn lemma_default_weights(f: nat, r: nat)
    ensures
        five_point_requirement(f, r) ==> default_weighs(f, r, 5, Priority::High),
        three_point_requirement(f, r) ==> default_weighs(f, r, 3, Priority::Medium),
        one_point_requirement(f, r) ==> default_weighs(f, r, 1, Priority::Low),
        f == 12 && r == 4 ==> default_weighs(f, r, 0, Priority::High),
        default_table().len() == 110,
{
    if five_point_requirement(f, r) || three_point_requirement(f, r) || one_point_requirement(f, r)
        || (f == 12 && r == 4) {
        lemma_default_score(f, r);
    }
    lemma_annex_rows_distinct(14);
    lemma_insert_all_distinct(annex_rows());
    reveal_with_fuel(annex_rows_upto, 15);
}

/// Requirement `3.f.r` is one of the 17 CMMC Level 1 practices (FAR 52.204-21).
pub open spec fn level1_practice(f: nat, r: nat) -> bool {
    ||| f == 1 && (r == 1 || r == 2 || r == 20 || r == 22)
    ||| f == 5 && (r == 1 || r == 2)
    ||| f == 8 && r == 3
    ||| f == 10 && (r == 1 || r == 3 || r == 4 || r == 5)
    ||| f == 13 && (r == 1 || r == 5)
    ||| f == 14 && (r == 1 || r == 2 || r == 4 || r == 5)
}

/// The built-in table places each requirement at its CMMC level: the Level 1
/// practices at Level 1 and marked foundational, every other requirement of
/// the table at Level 2 and not foundational.
pub proof fn lemma_default_levels(f: nat, r: nat)
    requires
        five_point_requirement(f, r) || three_point_requirement(f, r) || one_point_requirement(f, r)
            || (f == 12 && r == 4),
    ensures
        score_of(default_table(), annex_id(f, r)) is Some,
        score_of(default_table(), annex_id(f, r)).unwrap().cmmc_level == (if level1_practice(f, r) {
            CmmcLevel::Level1
        } else {
            CmmcLevel::Level2
        }),
        score_of(default_table(), annex_id(f, r)).unwrap().is_foundational == level1_practice(f, r),
{
    lemma_default_score(f, r);
}

/// One of the five one-pointers that 32 CFR §170.21(a)(2)(iii) excludes from
/// a POA&M: 3.1.20, 3.1.22, 3.10.3, 3.10.4 and 3.10.5.
pub open spec fn excluded_one_pointer(f: nat, r: nat) -> bool {
    ||| f == 1 && (r == 20 || r == 22)
    ||| f == 10 && (r == 3 || r == 4 || r == 5)
}

/// With the built-in table, POA&M eligibility follows the Annex A weight:
/// every 5- and 3-point requirement is refused except FIPS cryptography
/// (3.13.11), which is conditional; the system security plan (3.12.4) is
/// refused; every 1-point requirement is eligible except the five excluded
/// one-pointers, which are refused.
pub proof fn lemma_default_eligibility(f: nat, r: nat)
    ensures
        (five_point_requirement(f, r) || three_point_requirement(f, r)) && !(f == 13 && r == 11)
            ==> validation_for(default_table(), annex_id(f, r)).eligibility
            == PoamEligibility::NotEligible,
        f == 13 && r == 11 ==> validation_for(default_table(), annex_id(f, r)).eligibility
            == PoamEligibility::Conditional,
        f == 12 && r == 4 ==> validation_for(default_table(), annex_id(f, r)).eligibility
            == PoamEligibility::NotEligible,
        one_point_requirement(f, r) && !excluded_one_pointer(f, r) ==> validation_for(
            default_table(),
            annex_id(f, r),
        ).eligibility == PoamEligibility::Eligible,
        one_point_requirement(f, r) && excluded_one_pointer(f, r) ==> validation_for(
            default_table(),
            annex_id(f, r),
        ).eligibility == PoamEligibility::NotEligible,
{
    if five_point_requirement(f, r) || three_point_requirement(f, r) || one_point_requirement(f, r)
        || (f == 12 && r == 4) {
        lemma_default_score(f, r);
        lemma_annex_id_normalized(f, r);
        lemma_annex_id_fields(f, r);
        reveal_strlit("03.05.03");
        reveal_strlit("03.13.11");
        reveal_strlit("03.12.04");
        reveal_strlit("03.01.20");
        reveal_strlit("03.01.22");
        reveal_strlit("03.10.03");
        reveal_strlit("03.10.04");
        reveal_strlit("03.10.05");
        reveal_with_fuel(decimal, 2);
        assert(annex_id(5, 3) =~= "03.05.03"@);
        lemma_annex_id_fields(5, 3);
        assert(annex_id(13, 11) =~= "03.13.11"@);
        lemma_annex_id_fields(13, 11);
        assert(annex_id(12, 4) =~= "03.12.04"@);
        lemma_annex_id_fields(12, 4);
        assert(annex_id(1, 20) =~= "03.01.20"@);
        lemma_annex_id_fields(1, 20);
        assert(annex_id(1, 22) =~= "03.01.22"@);
        lemma_annex_id_fields(1, 22);
        assert(annex_id(10, 3) =~= "03.10.03"@);
        lemma_annex_id_fields(10, 3);
        assert(annex_id(10, 4) =~= "03.10.04"@);
        lemma_annex_id_fields(10, 4);
        assert(annex_id(10, 5) =~= "03.10.05"@);
        lemma_annex_id_fields(10, 5);
    }
}

} // verus!
