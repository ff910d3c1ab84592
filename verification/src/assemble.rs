//! Assembly of the response shapes (family → requirement → security
//! requirement) from raw elements, scores and POA&M validations.

use vstd::prelude::*;

use crate::model::{Element, ElementType, ElementView};
use crate::poam::{validation_for, PoamValidator};
use crate::response::{
    Family, FamilyView, Requirement, RequirementView, SecurityRequirement,
    SecurityRequirementView, requirements_view, security_requirements_view,
};
use crate::scoring::{score_of, ScoreTable, ScoringDatabase};
use crate::text::{
    chars_of, chars_start_with, concat2, fields_view, push_char, push_chars, seq_starts_with,
    split_chars, split_fields, str_eq, str_starts_with,
};

verus! {

/// The views of a list of elements.
pub open spec fn elements_view(v: Seq<Element>) -> Seq<ElementView> {
    v.map_values(|e: Element| e@)
}

/// Position of the first element of kind `t` whose identifier is `id`.
pub open spec fn first_related(es: Seq<ElementView>, id: Seq<char>, t: ElementType) -> Option<int>
    decreases es.len(),
{
    if es.len() == 0 {
        None
    } else {
        match first_related(es.drop_last(), id, t) {
            Some(k) => Some(k),
            None => if es.last().element_type == t && es.last().element_identifier == id {
                Some(es.len() - 1)
            } else {
                None
            },
        }
    }
}

/// The text of the first element of kind `t` with identifier `id`, unless
/// there is none or its text is empty.
pub open spec fn related_text(es: Seq<ElementView>, id: Seq<char>, t: ElementType) -> Option<Seq<char>> {
    match first_related(es, id, t) {
        Some(k) => if es[k].text.len() > 0 { Some(es[k].text) } else { None },
        None => None,
    }
}

/// The requirement a security requirement belongs to: `SR-03.01.01.a` gives
/// `03.01.01` (the first three dot-separated parts after `SR-`, or all of it
/// when there are fewer); `None` without the `SR-` prefix.
pub open spec fn parent_requirement_id(sr_id: Seq<char>) -> Option<Seq<char>> {
    if seq_starts_with(sr_id, "SR-"@) {
        let stripped = sr_id.subrange("SR-"@.len() as int, sr_id.len() as int);
        let parts = split_fields(stripped, '.');
        if parts.len() >= 3 {
            Some(parts[0] + seq!['.'] + parts[1] + seq!['.'] + parts[2])
        } else {
            Some(stripped)
        }
    } else {
        None
    }
}

/// The assembled form of a security requirement, scored and validated
/// through its parent requirement.
pub open spec fn security_requirement_spec(
    scores: ScoreTable,
    validator: ScoreTable,
    sr: ElementView,
    es: Seq<ElementView>,
) -> SecurityRequirementView {
    let parent = parent_requirement_id(sr.element_identifier);
    SecurityRequirementView {
        identifier: sr.element_identifier,
        title: sr.title,
        text: sr.text,
        discussion: related_text(es, sr.element_identifier, ElementType::Discussion),
        assessment: related_text(es, sr.element_identifier, ElementType::Assessment),
        score: match parent {
            Some(p) => score_of(scores, p),
            None => None,
        },
        poam_validation: match parent {
            Some(p) => Some(validation_for(validator, p)),
            None => None,
        },
    }
}

/// The security requirements among the first `n` elements whose identifier
/// starts with `SR-` followed by the requirement identifier, in order.
pub open spec fn security_requirements_for(
    scores: ScoreTable,
    validator: ScoreTable,
    req_id: Seq<char>,
    es: Seq<ElementView>,
    n: nat,
) -> Seq<SecurityRequirementView>
    decreases n,
{
    if n == 0 {
        Seq::empty()
    } else {
        let prev = security_requirements_for(scores, validator, req_id, es, (n - 1) as nat);
        let e = es[n - 1];
        if e.element_type == ElementType::SecurityRequirement && seq_starts_with(
            e.element_identifier,
            "SR-"@ + req_id,
        ) {
            prev.push(security_requirement_spec(scores, validator, e, es))
        } else {
            prev
        }
    }
}

/// The assembled form of a requirement.
pub open spec fn requirement_spec(
    scores: ScoreTable,
    validator: ScoreTable,
    req: ElementView,
    es: Seq<ElementView>,
) -> RequirementView {
    RequirementView {
        identifier: req.element_identifier,
        title: req.title,
        text: req.text,
        security_requirements: security_requirements_for(
            scores,
            validator,
            req.element_identifier,
            es,
            es.len(),
        ),
        score: score_of(scores, req.element_identifier),
        poam_validation: Some(validation_for(validator, req.element_identifier)),
    }
}

/// The requirements among the first `n` elements whose identifier starts with
/// the family identifier followed by a dot, in order.
pub open spec fn family_requirements(
    scores: ScoreTable,
    validator: ScoreTable,
    family_id: Seq<char>,
    es: Seq<ElementView>,
    n: nat,
) -> Seq<RequirementView>
    decreases n,
{
    if n == 0 {
        Seq::empty()
    } else {
        let prev = family_requirements(scores, validator, family_id, es, (n - 1) as nat);
        let e = es[n - 1];
        if e.element_type == ElementType::Requirement && seq_starts_with(
            e.element_identifier,
            family_id.push('.'),
        ) {
            prev.push(requirement_spec(scores, validator, e, es))
        } else {
            prev
        }
    }
}

/// The assembled form of a family.
pub open spec fn family_spec(
    scores: ScoreTable,
    validator: ScoreTable,
    family: ElementView,
    es: Seq<ElementView>,
) -> FamilyView {
    FamilyView {
        identifier: family.element_identifier,
        title: family.title,
        requirements: family_requirements(scores, validator, family.element_identifier, es, es.len()),
    }
}

/// Assemble a family with its nested requirements.
pub fn build_family(
    family: &Element,
    elements: &[Element],
    scoring_db: &ScoringDatabase,
    poam_validator: &PoamValidator,
) -> (r: Family)
    ensures
        r@ == family_spec(scoring_db@, poam_validator.table(), family@, elements_view(elements@)),
{
    Family {
        identifier: family.element_identifier.clone(),
        title: family.title.clone(),
        requirements: get_family_requirements(family, elements, scoring_db, poam_validator),
    }
}

#[verifier::rlimit(40)]
#[verifier::spinoff_prover]
fn get_family_requirements(
    family: &Element,
    elements: &[Element],
    scoring_db: &ScoringDatabase,
    poam_validator: &PoamValidator,
) -> (r: Vec<Requirement>)
    ensures
        requirements_view(r@) == family_requirements(
            scoring_db@,
            poam_validator.table(),
            family@.element_identifier,
            elements_view(elements@),
            elements@.len(),
        ),
{
    let mut prefix = family.element_identifier.clone();
    push_char(&mut prefix, '.');
    let ghost es = elements_view(elements@);
    let mut r: Vec<Requirement> = Vec::new();
    let n = elements.len();
    for i in 0..n
        invariant
            n == elements@.len(),
            es == elements_view(elements@),
            prefix@ == family@.element_identifier.push('.'),
            requirements_view(r@) == family_requirements(
                scoring_db@,
                poam_validator.table(),
                family@.element_identifier,
                es,
                i as nat,
            ),
    {
        let e = &elements[i];
        assert(es[i as int] == e@);
        if e.element_type == ElementType::Requirement && str_starts_with(
            e.element_identifier.as_str(),
            prefix.as_str(),
        ) {
            let ghost before = requirements_view(r@);
            let req = build_requirement(e, elements, scoring_db, poam_validator);
            r.push(req);
            assert(requirements_view(r@) =~= before.push(
                requirement_spec(scoring_db@, poam_validator.table(), e@, es),
            ));
        }
    }
    r
}

/// Assemble a requirement with its security requirements, score and POA&M validation.
pub fn build_requirement(
    req: &Element,
    elements: &[Element],
    scoring_db: &ScoringDatabase,
    poam_validator: &PoamValidator,
) -> (r: Requirement)
    ensures
        r@ == requirement_spec(scoring_db@, poam_validator.table(), req@, elements_view(elements@)),
{
    let score = match scoring_db.get_score(req.element_identifier.as_str()) {
        Some(s) => Some(s.duplicate()),
        None => None,
    };
    let poam_validation = Some(poam_validator.validate(req.element_identifier.as_str()));
    Requirement {
        identifier: req.element_identifier.clone(),
        title: req.title.clone(),
        text: req.text.clone(),
        security_requirements: get_security_requirements_for(
            req,
            elements,
            scoring_db,
            poam_validator,
        ),
        score,
        poam_validation,
    }
}

fn get_security_requirements_for(
    req: &Element,
    elements: &[Element],
    scoring_db: &ScoringDatabase,
    poam_validator: &PoamValidator,
) -> (r: Vec<SecurityRequirement>)
    ensures
        security_requirements_view(r@) == security_requirements_for(
            scoring_db@,
            poam_validator.table(),
            req@.element_identifier,
            elements_view(elements@),
            elements@.len(),
        ),
{
    let prefix = concat2("SR-", req.element_identifier.as_str());
    let ghost es = elements_view(elements@);
    let mut r: Vec<SecurityRequirement> = Vec::new();
    let n = elements.len();
    for i in 0..n
        invariant
            n == elements@.len(),
            es == elements_view(elements@),
            prefix@ == "SR-"@ + req@.element_identifier,
            security_requirements_view(r@) == security_requirements_for(
                scoring_db@,
                poam_validator.table(),
                req@.element_identifier,
                es,
                i as nat,
            ),
    {
        let e = &elements[i];
        assert(es[i as int] == e@);
        if e.element_type == ElementType::SecurityRequirement && str_starts_with(
            e.element_identifier.as_str(),
            prefix.as_str(),
        ) {
            let ghost before = security_requirements_view(r@);
            let sr = build_security_requirement(e, elements, scoring_db, poam_validator);
            r.push(sr);
            assert(security_requirements_view(r@) =~= before.push(
                security_requirement_spec(scoring_db@, poam_validator.table(), e@, es),
            ));
        }
    }
    r
}

/// Assemble a security requirement with its discussion and assessment text;
/// it inherits the score and POA&M validation of its parent requirement.
pub fn build_security_requirement(
    sr: &Element,
    elements: &[Element],
    scoring_db: &ScoringDatabase,
    poam_validator: &PoamValidator,
) -> (r: SecurityRequirement)
    ensures
        r@ == security_requirement_spec(scoring_db@, poam_validator.table(), sr@, elements_view(elements@)),
{
    let parent_id = extract_parent_requirement_id(sr.element_identifier.as_str());
    let score = match &parent_id {
        Some(id) => match scoring_db.get_score(id.as_str()) {
            Some(s) => Some(s.duplicate()),
            None => None,
        },
        None => None,
    };
    let poam_validation = match &parent_id {
        Some(id) => Some(poam_validator.validate(id.as_str())),
        None => None,
    };
    SecurityRequirement {
        identifier: sr.element_identifier.clone(),
        title: sr.title.clone(),
        text: sr.text.clone(),
        discussion: find_related_text(elements, sr.element_identifier.as_str(), ElementType::Discussion),
        assessment: find_related_text(elements, sr.element_identifier.as_str(), ElementType::Assessment),
        score,
        poam_validation,
    }
}

fn find_related_text(elements: &[Element], id: &str, element_type: ElementType) -> (r: Option<String>)
    ensures
        match related_text(elements_view(elements@), id@, element_type) {
            Some(t) => r is Some && r.unwrap()@ == t,
            None => r is None,
        },
{
    let ghost es = elements_view(elements@);
    let n = elements.len();
    for i in 0..n
        invariant
            n == elements@.len(),
            es == elements_view(elements@),
            first_related(es.take(i as int), id@, element_type) is None,
    {
        proof {
            assert(es.take(i + 1).drop_last() =~= es.take(i as int));
            assert(es.take(i + 1).last() == es[i as int]);
        }
        let e = &elements[i];
        assert(es[i as int] == e@);
        if e.element_type == element_type && str_eq(e.element_identifier.as_str(), id) {
            proof {
                lemma_first_related_prefix(es, id@, element_type, i + 1);
            }
            if e.text.as_str().is_empty() {
                return None;
            }
            return Some(e.text.clone());
        }
    }
    assert(es.take(n as int) =~= es);
    None
}

/// A match within a prefix is the first match of the whole list.
pub proof fn lemma_first_related_prefix(es: Seq<ElementView>, id: Seq<char>, t: ElementType, k: int)
    requires
        0 <= k <= es.len(),
        first_related(es.take(k), id, t) is Some,
    ensures
        first_related(es, id, t) == first_related(es.take(k), id, t),
    decreases es.len() - k,
{
    if k < es.len() {
        assert(es.take(k + 1).drop_last() =~= es.take(k));
        lemma_first_related_prefix(es, id, t, k + 1);
    } else {
        assert(es.take(k) =~= es);
    }
}

/// Extract the parent requirement identifier from a security requirement
/// identifier, e.g. `SR-03.01.01.a` → `03.01.01`.
fn extract_parent_requirement_id(sr_id: &str) -> (r: Option<String>)
    ensures
        match parent_requirement_id(sr_id@) {
            Some(p) => r is Some && r.unwrap()@ == p,
            None => r is None,
        },
{
    let chars = chars_of(sr_id);
    let prefix = chars_of("SR-");
    if !chars_start_with(chars.as_slice(), prefix.as_slice()) {
        return None;
    }
    let p = prefix.len();
    let n = chars.len();
    let mut stripped: Vec<char> = Vec::new();
    for i in p..n
        invariant
            p <= n,
            n == chars@.len(),
            p == "SR-"@.len(),
            stripped@ == chars@.subrange(p as int, i as int),
    {
        stripped.push(chars[i]);
        assert(chars@.subrange(p as int, i + 1) =~= chars@.subrange(p as int, i as int).push(chars@[i as int]));
    }
    let parts = split_chars(stripped.as_slice(), '.');
    if parts.len() >= 3 {
        proof {
            assert(fields_view(parts@)[0] == parts@[0]@);
            assert(fields_view(parts@)[1] == parts@[1]@);
            assert(fields_view(parts@)[2] == parts@[2]@);
        }
        let mut s = String::new();
        push_chars(&mut s, parts[0].as_slice());
        push_char(&mut s, '.');
        push_chars(&mut s, parts[1].as_slice());
        push_char(&mut s, '.');
        push_chars(&mut s, parts[2].as_slice());
        assert(s@ =~= parts@[0]@ + seq!['.'] + parts@[1]@ + seq!['.'] + parts@[2]@);
        Some(s)
    } else {
        let mut s = String::new();
        push_chars(&mut s, stripped.as_slice());
        assert(s@ =~= stripped@);
        Some(s)
    }
}

} // verus!
