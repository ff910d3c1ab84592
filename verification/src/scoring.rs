//! CMMC scoring: per-requirement weights of the DoD Assessment Methodology
//! and the lookup table built from them.

use vstd::prelude::*;

use crate::annex::{annex_family_rows, annex_id, annex_id_of, annex_rows, annex_rows_upto, annex_score, annex_score_of, family_size, family_size_of};
use crate::text::{lemma_decimal_pad2, lemma_digits_lack, lemma_split_three, lemma_parse_decimal_pad2, 
    chars_of, decimal_pad2, parse_u8, parse_u8_spec, push_char, push_decimal_pad2, split_chars,
    split_fields, fields_view, str_eq, to_lowercase, unicode_lowercase,
};

verus! {

/// CMMC level (1, 2 or 3).
#[derive(Debug, Clone, Copy, PartialEq, Eq, Hash, Structural)]
pub enum CmmcLevel {
    Level1,
    Level2,
    Level3,
}

/// Priority (High, Medium, Low).
#[derive(Debug, Clone, Copy, PartialEq, Eq, Structural)]
pub enum Priority {
    High,
    Medium,
    Low,
}

/// Scoring information for a requirement.
#[derive(Debug, Clone)]
pub struct RequirementScore {
    pub cmmc_level: CmmcLevel,
    pub point_value: u8,
    pub is_foundational: bool,
    pub priority: Priority,
    pub notes: Option<String>,
}

/// Abstract value of a [`RequirementScore`].
pub struct RequirementScoreView {
    pub cmmc_level: CmmcLevel,
    pub point_value: u8,
    pub is_foundational: bool,
    pub priority: Priority,
    pub notes: Option<Seq<char>>,
}

/// The view of an optional string.
pub open spec fn opt_string_view(s: Option<String>) -> Option<Seq<char>> {
    match s {
        Some(t) => Some(t@),
        None => None,
    }
}

/// A copy of an optional string.
pub fn duplicate_opt_string(s: &Option<String>) -> (r: Option<String>)
    ensures
        opt_string_view(r) == opt_string_view(*s),
{
    match s {
        Some(t) => Some(t.clone()),
        None => None,
    }
}

impl View for RequirementScore {
    type V = RequirementScoreView;

    open spec fn view(&self) -> RequirementScoreView {
        RequirementScoreView {
            cmmc_level: self.cmmc_level,
            point_value: self.point_value,
            is_foundational: self.is_foundational,
            priority: self.priority,
            notes: opt_string_view(self.notes),
        }
    }
}

impl RequirementScore {
    /// A field-by-field copy.
    pub fn duplicate(&self) -> (r: RequirementScore)
        ensures
            r@ == self@,
    {
        RequirementScore {
            cmmc_level: self.cmmc_level,
            point_value: self.point_value,
            is_foundational: self.is_foundational,
            priority: self.priority,
            notes: duplicate_opt_string(&self.notes),
        }
    }
}

/// One record of the scoring file, as stored there.
#[derive(Debug, Clone)]
pub struct ScoreJson {
    pub cmmc_level: u8,
    pub point_value: u8,
    pub is_foundational: bool,
    pub priority: String,
    pub notes: Option<String>,
}

/// Abstract value of a [`ScoreJson`].
pub struct ScoreJsonView {
    pub cmmc_level: u8,
    pub point_value: u8,
    pub is_foundational: bool,
    pub priority: Seq<char>,
    pub notes: Option<Seq<char>>,
}

impl View for ScoreJson {
    type V = ScoreJsonView;

    open spec fn view(&self) -> ScoreJsonView {
        ScoreJsonView {
            cmmc_level: self.cmmc_level,
            point_value: self.point_value,
            is_foundational: self.is_foundational,
            priority: self.priority@,
            notes: opt_string_view(self.notes),
        }
    }
}

/// The level that a number in the scoring file denotes.
pub open spec fn level_from_number(n: u8) -> Option<CmmcLevel> {
    if n == 1 {
        Some(CmmcLevel::Level1)
    } else if n == 2 {
        Some(CmmcLevel::Level2)
    } else if n == 3 {
        Some(CmmcLevel::Level3)
    } else {
        None
    }
}

/// The priority that an already-lowercased word denotes.
pub open spec fn priority_from_lower(s: Seq<char>) -> Option<Priority> {
    if s == "high"@ {
        Some(Priority::High)
    } else if s == "medium"@ {
        Some(Priority::Medium)
    } else if s == "low"@ {
        Some(Priority::Low)
    } else {
        None
    }
}

/// The score a record of the scoring file yields, given the lowercase form of
/// its priority word; `None` when the level or the priority is not recognised.
pub open spec fn score_from_json(j: ScoreJsonView, priority_lower: Seq<char>) -> Option<RequirementScoreView> {
    match (level_from_number(j.cmmc_level), priority_from_lower(priority_lower)) {
        (Some(level), Some(priority)) => Some(
            RequirementScoreView {
                cmmc_level: level,
                point_value: j.point_value,
                is_foundational: j.is_foundational,
                priority,
                notes: j.notes,
            },
        ),
        _ => None,
    }
}

/// The score a record of the scoring file yields (priority compared case-insensitively).
pub open spec fn parse_score_spec(j: ScoreJsonView) -> Option<RequirementScoreView> {
    score_from_json(j, unicode_lowercase(j.priority))
}

impl Priority {
    /// The priority an already-lowercased word denotes.
    pub fn from_lowercase(s: &str) -> (r: Option<Priority>)
        ensures
            r == priority_from_lower(s@),
    {
        if str_eq(s, "high") {
            Some(Priority::High)
        } else if str_eq(s, "medium") {
            Some(Priority::Medium)
        } else if str_eq(s, "low") {
            Some(Priority::Low)
        } else {
            None
        }
    }
}

// ---------------------------------------------------------------------------
// Requirement identifiers
// ---------------------------------------------------------------------------

/// The zero-padded Rev 3 form (`03.05.03`) of a three-segment numeric
/// identifier such as `3.5.3`; `None` for anything else (e.g. `3.1.1e`).
pub open spec fn normalize_spec(id: Seq<char>) -> Option<Seq<char>> {
    let parts = split_fields(id, '.');
    if parts.len() != 3 {
        None
    } else {
        match (parse_u8_spec(parts[0]), parse_u8_spec(parts[1]), parse_u8_spec(parts[2])) {
            (Some(a), Some(b), Some(c)) => Some(
                decimal_pad2(a as nat) + seq!['.'] + decimal_pad2(b as nat) + seq!['.']
                    + decimal_pad2(c as nat),
            ),
            _ => None,
        }
    }
}

/// Normalize a requirement identifier to the zero-padded Rev 3 form
/// (`3.5.3` → `03.05.03`). Returns `None` for anything that is not three
/// numeric dot-separated segments (e.g. 800-172 ids like `3.1.1e`).
pub fn normalize_requirement_id(id: &str) -> (r: Option<String>)
    ensures
        match r {
            Some(s) => normalize_spec(id@) == Some(s@),
            None => normalize_spec(id@) is None,
        },
{
    let chars = chars_of(id);
    let parts = split_chars(chars.as_slice(), '.');
    if parts.len() != 3 {
        return None;
    }
    proof {
        assert(fields_view(parts@)[0] == parts@[0]@);
        assert(fields_view(parts@)[1] == parts@[1]@);
        assert(fields_view(parts@)[2] == parts@[2]@);
    }
    let a = match parse_u8(parts[0].as_slice()) {
        Some(v) => v,
        None => return None,
    };
    let b = match parse_u8(parts[1].as_slice()) {
        Some(v) => v,
        None => return None,
    };
    let c = match parse_u8(parts[2].as_slice()) {
        Some(v) => v,
        None => return None,
    };
    let mut s = String::new();
    push_decimal_pad2(&mut s, a as usize);
    push_char(&mut s, '.');
    push_decimal_pad2(&mut s, b as usize);
    push_char(&mut s, '.');
    push_decimal_pad2(&mut s, c as usize);
    assert(s@ =~= decimal_pad2(a as nat) + seq!['.'] + decimal_pad2(b as nat) + seq!['.']
        + decimal_pad2(c as nat));
    Some(s)
}

/// A normalized identifier is its own normal form: normalizing twice gives
/// the same result as normalizing once.
pub proof fn lemma_normalize_idempotent(id: Seq<char>)
    requires
        normalize_spec(id) is Some,
    ensures
        normalize_spec(normalize_spec(id).unwrap()) == normalize_spec(id),
{
    let parts = split_fields(id, '.');
    let a = parse_u8_spec(parts[0]).unwrap();
    let b = parse_u8_spec(parts[1]).unwrap();
    let c = parse_u8_spec(parts[2]).unwrap();
    let pa = decimal_pad2(a as nat);
    let pb = decimal_pad2(b as nat);
    let pc = decimal_pad2(c as nat);
    lemma_decimal_pad2(a as nat);
    lemma_decimal_pad2(b as nat);
    lemma_decimal_pad2(c as nat);
    lemma_digits_lack(pa, '.');
    lemma_digits_lack(pb, '.');
    lemma_digits_lack(pc, '.');
    lemma_split_three(pa, pb, pc, '.');
    lemma_parse_decimal_pad2(a);
    lemma_parse_decimal_pad2(b);
    lemma_parse_decimal_pad2(c);
}

// ---------------------------------------------------------------------------
// Score tables
// ---------------------------------------------------------------------------

/// A score table as a sequence of (identifier, score) pairs.
pub type ScoreTable = Seq<(Seq<char>, RequirementScoreView)>;

/// The view of a stored table.
pub open spec fn table_view(v: Seq<(String, RequirementScore)>) -> ScoreTable {
    v.map_values(|p: (String, RequirementScore)| (p.0@, p.1@))
}

/// No identifier occurs twice.
pub open spec fn keys_distinct(t: ScoreTable) -> bool {
    forall|i: int, j: int| 0 <= i < j < t.len() ==> t[i].0 != t[j].0
}

/// Position of `id` in the table (the last one, if several).
pub open spec fn key_index(t: ScoreTable, id: Seq<char>) -> Option<int>
    decreases t.len(),
{
    if t.len() == 0 {
        None
    } else if t.last().0 == id {
        Some(t.len() - 1)
    } else {
        key_index(t.drop_last(), id)
    }
}

/// The score stored under exactly `id`.
pub open spec fn table_lookup(t: ScoreTable, id: Seq<char>) -> Option<RequirementScoreView> {
    match key_index(t, id) {
        Some(i) => Some(t[i].1),
        None => None,
    }
}

/// The table after storing `score` under `id` (replacing a previous score).
pub open spec fn table_insert(t: ScoreTable, id: Seq<char>, score: RequirementScoreView) -> ScoreTable {
    match key_index(t, id) {
        Some(i) => t.update(i, (id, score)),
        None => t.push((id, score)),
    }
}

/// The table after dropping the score stored under `id`, if any.
pub open spec fn table_remove(t: ScoreTable, id: Seq<char>) -> ScoreTable {
    match key_index(t, id) {
        Some(i) => t.remove(i),
        None => t,
    }
}

/// The table that storing each row in turn produces.
pub open spec fn insert_all(t: ScoreTable, rows: ScoreTable) -> ScoreTable
    decreases rows.len(),
{
    if rows.len() == 0 {
        t
    } else {
        let prev = insert_all(t, rows.drop_last());
        table_insert(prev, rows.last().0, rows.last().1)
    }
}

/// The table that the records of a scoring file produce: a record whose level
/// or priority is not recognised leaves no score under its identifier, and a
/// later record for an identifier replaces an earlier one.
pub open spec fn table_from_json(records: Seq<(Seq<char>, ScoreJsonView)>) -> ScoreTable
    decreases records.len(),
{
    if records.len() == 0 {
        Seq::empty()
    } else {
        let prev = table_from_json(records.drop_last());
        let (id, j) = records.last();
        match parse_score_spec(j) {
            Some(score) => table_insert(prev, id, score),
            None => table_remove(prev, id),
        }
    }
}

/// The score of a requirement in either identifier form: the exact identifier
/// first, then its normalized Rev 3 form.
pub open spec fn score_of(t: ScoreTable, id: Seq<char>) -> Option<RequirementScoreView> {
    match table_lookup(t, id) {
        Some(s) => Some(s),
        None => match normalize_spec(id) {
            Some(n) => table_lookup(t, n),
            None => None,
        },
    }
}

/// The rows whose score satisfies `pred`, in table order.
pub open spec fn select_rows(t: ScoreTable, pred: spec_fn(RequirementScoreView) -> bool) -> ScoreTable
    decreases t.len(),
{
    if t.len() == 0 {
        Seq::empty()
    } else {
        let prev = select_rows(t.drop_last(), pred);
        if pred(t.last().1) {
            prev.push(t.last())
        } else {
            prev
        }
    }
}

/// Total points of the listed requirements (unknown identifiers count 0).
pub open spec fn total_points(t: ScoreTable, ids: Seq<Seq<char>>) -> nat
    decreases ids.len(),
{
    if ids.len() == 0 {
        0
    } else {
        total_points(t, ids.drop_last()) + match score_of(t, ids.last()) {
            Some(s) => s.point_value as nat,
            None => 0,
        }
    }
}

/// `key_index` finds a matching position, and no later one matches.
pub proof fn lemma_key_index(t: ScoreTable, id: Seq<char>)
    ensures
        match key_index(t, id) {
            Some(i) => 0 <= i < t.len() && t[i].0 == id && forall|j: int| i < j < t.len() ==> t[j].0 != id,
            None => forall|j: int| 0 <= j < t.len() ==> t[j].0 != id,
        },
    decreases t.len(),
{
    if t.len() > 0 {
        let d = t.drop_last();
        lemma_key_index(d, id);
        assert forall|j: int| 0 <= j < d.len() implies d[j] == t[j] by {}
        if t.last().0 != id {
            match key_index(d, id) {
                Some(i) => {
                    assert forall|j: int| i < j < t.len() implies t[j].0 != id by {
                        if j < d.len() {
                            assert(d[j] == t[j]);
                        }
                    }
                },
                None => {
                    assert forall|j: int| 0 <= j < t.len() implies t[j].0 != id by {
                        if j < d.len() {
                            assert(d[j] == t[j]);
                        }
                    }
                },
            }
        }
    }
}

/// Every identifier of the table is in the zero-padded Rev 3 form.
pub open spec fn keys_normalized(t: ScoreTable) -> bool {
    forall|i: int| 0 <= i < t.len() ==> normalize_spec(#[trigger] t[i].0) == Some(t[i].0)
}

/// In a table keyed by Rev 3 identifiers, the Rev 2 form of an identifier
/// (`3.5.3`) and its Rev 3 form (`03.05.03`) have the same score.
pub proof fn lemma_score_forms_agree(t: ScoreTable, id: Seq<char>)
    requires
        keys_normalized(t),
        normalize_spec(id) is Some,
    ensures
        score_of(t, id) == score_of(t, normalize_spec(id).unwrap()),
{
    let n = normalize_spec(id).unwrap();
    lemma_normalize_idempotent(id);
    lemma_key_index(t, id);
    match key_index(t, id) {
        Some(i) => {
            assert(normalize_spec(t[i].0) == Some(t[i].0));
            assert(n == id);
        },
        None => {},
    }
}

/// A requirement identifier of the Annex A table is in normal form.
pub(crate) proof fn lemma_annex_id_normalized(f: nat, r: nat)
    requires
        f <= 255,
        r <= 255,
    ensures
        normalize_spec(annex_id(f, r)) == Some(annex_id(f, r)),
{
    let p3 = decimal_pad2(3);
    let pf = decimal_pad2(f);
    let pr = decimal_pad2(r);
    assert(p3 =~= seq!['0', '3']);
    lemma_decimal_pad2(3);
    lemma_decimal_pad2(f);
    lemma_decimal_pad2(r);
    lemma_digits_lack(p3, '.');
    lemma_digits_lack(pf, '.');
    lemma_digits_lack(pr, '.');
    assert(annex_id(f, r) =~= p3 + seq!['.'] + pf + seq!['.'] + pr);
    lemma_split_three(p3, pf, pr, '.');
    lemma_parse_decimal_pad2(3u8);
    lemma_parse_decimal_pad2(f as u8);
    lemma_parse_decimal_pad2(r as u8);
}

/// Every identifier of the first families' rows is in normal form.
proof fn lemma_annex_rows_normalized(f: nat)
    requires
        f <= 14,
    ensures
        forall|i: int| 0 <= i < annex_rows_upto(f).len() ==> normalize_spec(#[trigger] annex_rows_upto(f)[i].0)
            == Some(annex_rows_upto(f)[i].0),
    decreases f,
{
    if f > 0 {
        lemma_annex_rows_normalized((f - 1) as nat);
        let prev = annex_rows_upto((f - 1) as nat);
        let fam = annex_family_rows(f);
        assert forall|i: int| 0 <= i < annex_rows_upto(f).len() implies normalize_spec(
            #[trigger] annex_rows_upto(f)[i].0,
        ) == Some(annex_rows_upto(f)[i].0) by {
            if i >= prev.len() {
                let k = i - prev.len();
                assert(annex_rows_upto(f)[i] == fam[k]);
                assert(family_size(f) <= 22);
                lemma_annex_id_normalized(f, (k + 1) as nat);
            } else {
                assert(annex_rows_upto(f)[i] == prev[i]);
            }
        }
    }
}

/// Every identifier that storing rows leaves in a table came from the table
/// or from the rows.
proof fn lemma_insert_all_keys(t: ScoreTable, rows: ScoreTable, i: int)
    requires
        0 <= i < insert_all(t, rows).len(),
    ensures
        (exists|j: int| 0 <= j < t.len() && t[j].0 == insert_all(t, rows)[i].0) || (exists|j: int|
            0 <= j < rows.len() && rows[j].0 == insert_all(t, rows)[i].0),
    decreases rows.len(),
{
    let k = insert_all(t, rows)[i].0;
    if rows.len() == 0 {
        assert(t[i].0 == k);
    } else {
        let prev = insert_all(t, rows.drop_last());
        let id = rows.last().0;
        lemma_key_index(prev, id);
        if k == id {
            assert(rows[rows.len() - 1].0 == k);
        } else {
            match key_index(prev, id) {
                Some(p) => {
                    assert(insert_all(t, rows) == prev.update(p, (id, rows.last().1)));
                    assert(i != p);
                    assert(prev[i].0 == k);
                },
                None => {
                    assert(insert_all(t, rows) == prev.push((id, rows.last().1)));
                    assert(i < prev.len());
                    assert(prev[i].0 == k);
                },
            }
            lemma_insert_all_keys(t, rows.drop_last(), i);
            if exists|j: int| 0 <= j < rows.drop_last().len() && rows.drop_last()[j].0 == k {
                let j = choose|j: int| 0 <= j < rows.drop_last().len() && rows.drop_last()[j].0 == k;
                assert(rows[j].0 == k);
            } else {
                let j = choose|j: int| 0 <= j < t.len() && t[j].0 == k;
                assert(t[j].0 == k);
            }
        }
    }
}

/// The built-in table is keyed by Rev 3 identifiers, so the Rev 2 and Rev 3
/// forms of an identifier find the same score in it.
pub proof fn lemma_default_table_normalized()
    ensures
        keys_normalized(insert_all(Seq::empty(), annex_rows())),
{
    let t = insert_all(Seq::empty(), annex_rows());
    lemma_annex_rows_normalized(14);
    assert forall|i: int| 0 <= i < t.len() implies normalize_spec(#[trigger] t[i].0) == Some(t[i].0) by {
        lemma_insert_all_keys(Seq::empty(), annex_rows(), i);
        let j = choose|j: int| 0 <= j < annex_rows().len() && annex_rows()[j].0 == t[i].0;
        assert(annex_rows()[j] == annex_rows_upto(14)[j]);
    }
}

/// The built-in table gives a Rev 2 identifier (`3.5.3`) the score of its
/// Rev 3 form (`03.05.03`).
pub proof fn lemma_default_scores_accept_both_forms(id: Seq<char>)
    requires
        normalize_spec(id) is Some,
    ensures
        score_of(insert_all(Seq::empty(), annex_rows()), id) == score_of(
            insert_all(Seq::empty(), annex_rows()),
            normalize_spec(id).unwrap(),
        ),
{
    lemma_default_table_normalized();
    lemma_score_forms_agree(insert_all(Seq::empty(), annex_rows()), id);
}

/// Storing a score keeps identifiers distinct.
pub proof fn lemma_insert_distinct(t: ScoreTable, id: Seq<char>, s: RequirementScoreView)
    requires
        keys_distinct(t),
    ensures
        keys_distinct(table_insert(t, id, s)),
{
    lemma_key_index(t, id);
}

/// Dropping a score keeps identifiers distinct.
pub proof fn lemma_remove_distinct(t: ScoreTable, id: Seq<char>)
    requires
        keys_distinct(t),
    ensures
        keys_distinct(table_remove(t, id)),
{
    lemma_key_index(t, id);
    match key_index(t, id) {
        Some(i) => {
            let r = t.remove(i);
            assert forall|a: int, b: int| 0 <= a < b < r.len() implies r[a].0 != r[b].0 by {
                let a2 = if a < i { a } else { a + 1 };
                let b2 = if b < i { b } else { b + 1 };
                assert(r[a] == t[a2]);
                assert(r[b] == t[b2]);
            }
        },
        None => {},
    }
}

/// Position of `key` in a stored table.
fn find_key(t: &Vec<(String, RequirementScore)>, key: &String) -> (r: Option<usize>)
    ensures
        match key_index(table_view(t@), key@) {
            Some(i) => r is Some && r.unwrap() as int == i,
            None => r is None,
        },
{
    let mut found: Option<usize> = None;
    let n = t.len();
    for i in 0..n
        invariant
            n == t@.len(),
            match key_index(table_view(t@).take(i as int), key@) {
                Some(k) => found is Some && found.unwrap() as int == k,
                None => found is None,
            },
    {
        proof {
            let tv = table_view(t@);
            assert(tv.take(i + 1).drop_last() =~= tv.take(i as int));
            assert(tv.take(i + 1).last() == tv[i as int]);
        }
        if t[i].0 == *key {
            found = Some(i);
        }
    }
    assert(table_view(t@).take(n as int) =~= table_view(t@));
    found
}

/// Stores `score` under `key` in a table, replacing any previous score.
fn insert_score(t: &mut Vec<(String, RequirementScore)>, key: String, score: RequirementScore)
    requires
        keys_distinct(table_view(old(t)@)),
    ensures
        table_view(final(t)@) == table_insert(table_view(old(t)@), key@, score@),
        keys_distinct(table_view(final(t)@)),
{
    let ghost tv = table_view(t@);
    let ghost kv = key@;
    let ghost sv = score@;
    proof {
        lemma_insert_distinct(tv, kv, sv);
        lemma_key_index(tv, kv);
    }
    match find_key(t, &key) {
        Some(i) => {
            t.set(i, (key, score));
            assert(table_view(t@) =~= tv.update(i as int, (kv, sv)));
        },
        None => {
            t.push((key, score));
            assert(table_view(t@) =~= tv.push((kv, sv)));
        },
    }
}

/// Drops the score stored under `key` from a table, if any.
fn remove_score(t: &mut Vec<(String, RequirementScore)>, key: &String)
    requires
        keys_distinct(table_view(old(t)@)),
    ensures
        table_view(final(t)@) == table_remove(table_view(old(t)@), key@),
        keys_distinct(table_view(final(t)@)),
{
    let ghost tv = table_view(t@);
    proof {
        lemma_remove_distinct(tv, key@);
        lemma_key_index(tv, key@);
    }
    match find_key(t, key) {
        Some(i) => {
            let _ = t.remove(i);
            assert(table_view(t@) =~= tv.remove(i as int));
        },
        None => {},
    }
}

/// Scoring database: the score of every requirement it knows, keyed by the
/// Rev 3 identifier form.
pub struct ScoringDatabase {
    scores: Vec<(String, RequirementScore)>,
}

impl View for ScoringDatabase {
    type V = ScoreTable;

    closed spec fn view(&self) -> ScoreTable {
        table_view(self.scores@)
    }
}

impl ScoringDatabase {
    /// The table of the DoD Assessment Methodology (Annex A): the 110
    /// requirements of SP 800-171 Rev 2 under their Rev 3 identifiers.
    pub fn new() -> (db: ScoringDatabase)
        ensures
            db@ == insert_all(Seq::empty(), annex_rows()),
    {
        let mut scores: Vec<(String, RequirementScore)> = Vec::new();
        assert(table_view(scores@) =~= Seq::<(Seq<char>, RequirementScoreView)>::empty());
        for f in 1..15u8
            invariant
                keys_distinct(table_view(scores@)),
                table_view(scores@) == insert_all(Seq::empty(), annex_rows_upto((f - 1) as nat)),
        {
            let size = family_size_of(f);
            let ghost done = annex_rows_upto((f - 1) as nat);
            let ghost fam = annex_family_rows(f as nat);
            assert(done + fam.take(0) =~= done);
            for r in 1..size + 1
                invariant
                    size as nat == family_size(f as nat),
                    1 <= f < 15,
                    done == annex_rows_upto((f - 1) as nat),
                    fam == annex_family_rows(f as nat),
                    keys_distinct(table_view(scores@)),
                    table_view(scores@) == insert_all(Seq::empty(), done + fam.take((r - 1) as int)),
            {
                let id = annex_id_of(f, r);
                let score = annex_score_of(f, r);
                proof {
                    let rows = done + fam.take(r as int);
                    assert(rows.drop_last() =~= done + fam.take((r - 1) as int));
                    assert(rows.last() == fam[(r - 1) as int]);
                    assert(fam[(r - 1) as int] == (annex_id(f as nat, r as nat), annex_score(f as nat, r as nat)));
                }
                insert_score(&mut scores, id, score);
            }
            assert(done + fam.take(size as int) =~= annex_rows_upto(f as nat));
        }
        ScoringDatabase { scores }
    }

    #[verifier::type_invariant]
    spec fn keys_are_distinct(self) -> bool {
        keys_distinct(table_view(self.scores@))
    }

    /// Parses one record of the scoring file.
    fn parse_score(json: &ScoreJson) -> (r: Result<RequirementScore, ()>)
        ensures
            match r {
                Ok(s) => parse_score_spec(json@) == Some(s@),
                Err(_) => parse_score_spec(json@) is None,
            },
    {
        let cmmc_level = match json.cmmc_level {
            1 => CmmcLevel::Level1,
            2 => CmmcLevel::Level2,
            3 => CmmcLevel::Level3,
            _ => return Err(()),
        };
        let lower = to_lowercase(json.priority.as_str());
        let priority = match Priority::from_lowercase(lower.as_str()) {
            Some(p) => p,
            None => return Err(()),
        };
        Ok(RequirementScore {
            cmmc_level,
            point_value: json.point_value,
            is_foundational: json.is_foundational,
            priority,
            notes: duplicate_opt_string(&json.notes),
        })
    }

    /// Builds the table from the records of a scoring file, in order.
    pub fn from_entries(records: &[(String, ScoreJson)]) -> (db: ScoringDatabase)
        ensures
            db@ == table_from_json(json_records_view(records@)),
    {
        let ghost rv = json_records_view(records@);
        let mut scores: Vec<(String, RequirementScore)> = Vec::new();
        let n = records.len();
        for i in 0..n
            invariant
                n == records@.len(),
                rv == json_records_view(records@),
                keys_distinct(table_view(scores@)),
                table_view(scores@) == table_from_json(rv.take(i as int)),
        {
            proof {
                assert(rv.take(i + 1).drop_last() =~= rv.take(i as int));
                assert(rv.take(i + 1).last() == rv[i as int]);
            }
            let id = &records[i].0;
            let json = &records[i].1;
            match ScoringDatabase::parse_score(json) {
                Ok(score) => insert_score(&mut scores, id.clone(), score),
                Err(_) => remove_score(&mut scores, id),
            }
        }
        assert(rv.take(n as int) =~= rv);
        ScoringDatabase { scores }
    }

    /// Position of the score stored under exactly `key`.
    fn position(&self, key: &String) -> (r: Option<usize>)
        ensures
            match table_lookup(self@, key@) {
                Some(s) => r is Some && r.unwrap() < self.scores@.len() && self.scores@[r.unwrap() as int].1@ == s,
                None => r is None,
            },
    {
        let r = find_key(&self.scores, key);
        proof {
            let tv = table_view(self.scores@);
            assert(self@ == tv);
            lemma_key_index(tv, key@);
            match key_index(tv, key@) {
                Some(i) => {
                    assert(tv[i] == (self.scores@[i].0@, self.scores@[i].1@));
                    assert(table_lookup(tv, key@) == Some(tv[i].1));
                },
                None => {
                    assert(r is None);
                },
            }
        }
        r
    }

    /// Get score for a requirement. Accepts both Rev 2 (`3.5.3`) and Rev 3
    /// (`03.05.03`) identifier forms — the table is keyed by the Rev 3 form.
    pub fn get_score(&self, requirement_id: &str) -> (r: Option<&RequirementScore>)
        ensures
            match r {
                Some(s) => score_of(self@, requirement_id@) == Some(s@),
                None => score_of(self@, requirement_id@) is None,
            },
    {
        let key = requirement_id.to_owned();
        match self.position(&key) {
            Some(i) => return Some(&self.scores[i].1),
            None => {},
        }
        match normalize_requirement_id(requirement_id) {
            Some(n) => match self.position(&n) {
                Some(i) => Some(&self.scores[i].1),
                None => None,
            },
            None => None,
        }
    }

    /// Get all requirements for a CMMC level.
    pub fn get_by_level(&self, level: CmmcLevel) -> (r: Vec<(&String, &RequirementScore)>)
        ensures
            ref_pairs_view(r@) == select_rows(self@, |s: RequirementScoreView| s.cmmc_level == level),
    {
        let mut r: Vec<(&String, &RequirementScore)> = Vec::new();
        let n = self.scores.len();
        let ghost pred = |s: RequirementScoreView| s.cmmc_level == level;
        for i in 0..n
            invariant
                n == self.scores@.len(),
                pred == (|s: RequirementScoreView| s.cmmc_level == level),
                ref_pairs_view(r@) == select_rows(table_view(self.scores@).take(i as int), pred),
        {
            proof {
                let tv = table_view(self.scores@);
                assert(tv.take(i + 1).drop_last() =~= tv.take(i as int));
                assert(tv.take(i + 1).last() == tv[i as int]);
            }
            let ghost before = ref_pairs_view(r@);
            if self.scores[i].1.cmmc_level == level {
                r.push((&self.scores[i].0, &self.scores[i].1));
                assert(ref_pairs_view(r@) =~= before.push(table_view(self.scores@)[i as int]));
            }
        }
        assert(table_view(self.scores@).take(n as int) =~= table_view(self.scores@));
        r
    }

    /// All requirement identifiers in the scoring table (Rev 3 form).
    pub fn all_requirement_ids(&self) -> (r: Vec<String>)
        ensures
            r@.map_values(|s: String| s@) == self@.map_values(|p: (Seq<char>, RequirementScoreView)| p.0),
            r@.map_values(|s: String| s@).no_duplicates(),
    {
        proof {
            use_type_invariant(self);
        }
        let mut r: Vec<String> = Vec::new();
        let n = self.scores.len();
        for i in 0..n
            invariant
                n == self.scores@.len(),
                r@.len() == i,
                r@.map_values(|s: String| s@) == table_view(self.scores@).take(i as int).map_values(
                    |p: (Seq<char>, RequirementScoreView)| p.0,
                ),
        {
            let ghost before = r@;
            r.push(self.scores[i].0.clone());
            proof {
                let tv = table_view(self.scores@);
                let lhs = r@.map_values(|s: String| s@);
                let rhs = tv.take(i + 1).map_values(|p: (Seq<char>, RequirementScoreView)| p.0);
                let prev = tv.take(i as int).map_values(|p: (Seq<char>, RequirementScoreView)| p.0);
                assert(lhs.len() == rhs.len());
                assert forall|k: int| 0 <= k < lhs.len() implies lhs[k] == rhs[k] by {
                    if k < i {
                        assert(r@[k] == before[k]);
                        assert(lhs[k] == prev[k]);
                    } else {
                        assert(tv[k] == (self.scores@[k].0@, self.scores@[k].1@));
                    }
                }
                assert(lhs =~= rhs);
            }
        }
        assert(table_view(self.scores@).take(n as int) =~= table_view(self.scores@));
        proof {
            let ks = r@.map_values(|s: String| s@);
            let tv = table_view(self.scores@);
            assert forall|a: int, b: int| 0 <= a < ks.len() && 0 <= b < ks.len() && a != b implies ks[a] != ks[b] by {
                assert(ks[a] == tv[a].0);
                assert(ks[b] == tv[b].0);
                if a < b {
                    assert(tv[a].0 != tv[b].0);
                } else {
                    assert(tv[b].0 != tv[a].0);
                }
            }
        }
        r
    }

    /// Get all foundational requirements.
    pub fn get_foundational(&self) -> (r: Vec<(&String, &RequirementScore)>)
        ensures
            ref_pairs_view(r@) == select_rows(self@, |s: RequirementScoreView| s.is_foundational),
    {
        let mut r: Vec<(&String, &RequirementScore)> = Vec::new();
        let n = self.scores.len();
        let ghost pred = |s: RequirementScoreView| s.is_foundational;
        for i in 0..n
            invariant
                n == self.scores@.len(),
                pred == (|s: RequirementScoreView| s.is_foundational),
                ref_pairs_view(r@) == select_rows(table_view(self.scores@).take(i as int), pred),
        {
            proof {
                let tv = table_view(self.scores@);
                assert(tv.take(i + 1).drop_last() =~= tv.take(i as int));
                assert(tv.take(i + 1).last() == tv[i as int]);
            }
            let ghost before = ref_pairs_view(r@);
            if self.scores[i].1.is_foundational {
                r.push((&self.scores[i].0, &self.scores[i].1));
                assert(ref_pairs_view(r@) =~= before.push(table_view(self.scores@)[i as int]));
            }
        }
        assert(table_view(self.scores@).take(n as int) =~= table_view(self.scores@));
        r
    }

    /// Calculate total points of the listed requirements (either identifier
    /// form; identifiers without a score count nothing).
    pub fn calculate_total_points(&self, requirement_ids: &[String]) -> (total: u32)
        requires
            total_points(self@, requirement_ids@.map_values(|s: String| s@)) <= u32::MAX,
        ensures
            total as nat == total_points(self@, requirement_ids@.map_values(|s: String| s@)),
    {
        let ghost ids = requirement_ids@.map_values(|s: String| s@);
        let mut total: u32 = 0;
        let n = requirement_ids.len();
        for i in 0..n
            invariant
                n == requirement_ids@.len(),
                ids == requirement_ids@.map_values(|s: String| s@),
                total_points(self@, ids) <= u32::MAX,
                total as nat == total_points(self@, ids.take(i as int)),
        {
            proof {
                assert(ids.take(i + 1).drop_last() =~= ids.take(i as int));
                assert(ids.take(i + 1).last() == ids[i as int]);
                lemma_total_points_prefix(self@, ids, i + 1);
            }
            match self.get_score(requirement_ids[i].as_str()) {
                Some(score) => {
                    total = total + score.point_value as u32;
                },
                None => {},
            }
        }
        assert(ids.take(n as int) =~= ids);
        total
    }
}

impl Default for ScoringDatabase {
    fn default() -> (db: Self)
        ensures
            db@ == insert_all(Seq::empty(), annex_rows()),
    {
        ScoringDatabase::new()
    }
}

/// The views of a list of (identifier, score) references.
pub open spec fn ref_pairs_view(v: Seq<(&String, &RequirementScore)>) -> ScoreTable {
    v.map_values(|p: (&String, &RequirementScore)| (p.0@, p.1@))
}

/// The views of the records of a scoring file.
pub open spec fn json_records_view(v: Seq<(String, ScoreJson)>) -> Seq<(Seq<char>, ScoreJsonView)> {
    v.map_values(|p: (String, ScoreJson)| (p.0@, p.1@))
}

/// Totals grow with the list.
pub proof fn lemma_total_points_prefix(t: ScoreTable, ids: Seq<Seq<char>>, k: int)
    requires
        0 <= k <= ids.len(),
    ensures
        total_points(t, ids.take(k)) <= total_points(t, ids),
    decreases ids.len() - k,
{
    if k < ids.len() {
        lemma_total_points_prefix(t, ids, k + 1);
        assert(ids.take(k + 1).drop_last() =~= ids.take(k));
    } else {
        assert(ids.take(k) =~= ids);
    }
}

} // verus!
