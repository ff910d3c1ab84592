//! Endpoint logic: each function takes a resolved [`DocumentContext`] (and
//! the scoring table / POA&M validator where needed) and returns the response
//! value or a [`CoreError`]. Transport concerns stay with the caller.

use vstd::prelude::*;

use crate::assemble::{elements_view, family_spec, requirement_spec, security_requirement_spec};
pub use crate::assemble::{build_family, build_requirement, build_security_requirement};
use crate::document::DocumentContext;
use crate::error::CoreError;
use crate::index::{indices_meeting, last_with_identifier, search_results, Criterion, EntryView};
use crate::model::{
    display_name_of, document_name_of, key_text, revision_name, revision_of, Document,
    DocumentKey, DocumentSource, DocumentView, Element, ElementType, ElementView, Relationship,
    RelationshipView,
};
use crate::order::{lemma_lex_total, lemma_lex_trans, lex_le, str_lex_le};
use crate::poam::{validation_for, PoamEligibility, PoamValidation, PoamValidationView, PoamValidator};
use crate::query::{query_limit, query_offset, query_type, ElementQuery};
use crate::response::{
    families_view, requirements_view, security_requirements_view, DataSummary, Family, FamilyView,
    PaginatedResponse, Requirement, RequirementView, SecurityRequirement, SecurityRequirementView,
};
use crate::scoring::ScoringDatabase;
use crate::text::{concat2, str_eq, unicode_lowercase};

verus! {

broadcast use vstd::seq_lib::group_to_multiset_ensures;

// ---------------------------------------------------------------------------
// Documents
// ---------------------------------------------------------------------------

/// Lightweight description of an available document.
#[derive(Debug, Clone)]
pub struct DocumentInfo {
    /// URL path identifier (e.g. `sp800-171/r3`).
    pub id: String,
    /// Human-readable name.
    pub name: String,
    /// Document identifier.
    pub document: String,
    /// Revision.
    pub revision: String,
}

/// Abstract value of a [`DocumentInfo`].
pub struct DocumentInfoView {
    pub id: Seq<char>,
    pub name: Seq<char>,
    pub document: Seq<char>,
    pub revision: Seq<char>,
}

impl View for DocumentInfo {
    type V = DocumentInfoView;

    open spec fn view(&self) -> DocumentInfoView {
        DocumentInfoView {
            id: self.id@,
            name: self.name@,
            document: self.document@,
            revision: self.revision@,
        }
    }
}

/// The description of a key.
pub open spec fn document_info_of(k: DocumentKey) -> DocumentInfoView {
    DocumentInfoView {
        id: key_text(k),
        name: display_name_of(k),
        document: document_name_of(k),
        revision: revision_name(revision_of(k)),
    }
}

/// The descriptions of the NIST keys among `keys`, in order.
pub open spec fn nist_infos(keys: Seq<DocumentKey>) -> Seq<DocumentInfoView>
    decreases keys.len(),
{
    if keys.len() == 0 {
        Seq::empty()
    } else {
        let prev = nist_infos(keys.drop_last());
        if keys.last() is Nist {
            prev.push(document_info_of(keys.last()))
        } else {
            prev
        }
    }
}

/// The views of a list of descriptions.
pub open spec fn infos_view(v: Seq<DocumentInfo>) -> Seq<DocumentInfoView> {
    v.map_values(|d: DocumentInfo| d@)
}

/// Descriptions sorted by identifier.
pub open spec fn sorted_by_id(s: Seq<DocumentInfoView>) -> bool {
    forall|i: int, j: int| 0 <= i < j < s.len() ==> lex_le(s[i].id, s[j].id)
}

/// The description of a key.
pub fn document_info(key: &DocumentKey) -> (d: DocumentInfo)
    ensures
        d@ == document_info_of(*key),
{
    DocumentInfo {
        id: key.to_string(),
        name: key.display_name(),
        document: key.document_string(),
        revision: key.revision_string(),
    }
}

/// Build the list of NIST documents from a set of available keys, sorted by
/// identifier; FAR documents are left out.
pub fn list_nist_documents(keys: &[DocumentKey]) -> (r: Vec<DocumentInfo>)
    ensures
        sorted_by_id(infos_view(r@)),
        infos_view(r@).to_multiset() == nist_infos(keys@).to_multiset(),
{
    let mut r: Vec<DocumentInfo> = Vec::new();
    let n = keys.len();
    for i in 0..n
        invariant
            n == keys@.len(),
            sorted_by_id(infos_view(r@)),
            infos_view(r@).to_multiset() == nist_infos(keys@.take(i as int)).to_multiset(),
    {
        proof {
            assert(keys@.take(i + 1).drop_last() =~= keys@.take(i as int));
            assert(keys@.take(i + 1).last() == keys@[i as int]);
        }
        let key = keys[i];
        match key.source() {
            DocumentSource::Nist => {
                let info = document_info(&key);
                let m = r.len();
                let mut j: usize = 0;
                while j < m && str_lex_le(r[j].id.as_str(), info.id.as_str())
                    invariant
                        m == r@.len(),
                        j <= m,
                        forall|k: int| 0 <= k < j ==> lex_le(infos_view(r@)[k].id, info@.id),
                    decreases m - j,
                {
                    j = j + 1;
                }
                let ghost before = infos_view(r@);
                let ghost x = info@;
                proof {
                    let s = before.insert(j as int, x);
                    assert forall|a: int, b: int| 0 <= a < b < s.len() implies lex_le(s[a].id, s[b].id) by {
                        if b < j {
                            assert(s[a] == before[a] && s[b] == before[b]);
                        } else if b == j {
                            assert(s[a] == before[a]);
                        } else if a == j {
                            assert(s[b] == before[b - 1]);
                            lemma_lex_total(before[j as int].id, x.id);
                            if b - 1 > j {
                                lemma_lex_trans(x.id, before[j as int].id, before[b - 1].id);
                            }
                        } else if a < j {
                            assert(s[a] == before[a] && s[b] == before[b - 1]);
                        } else {
                            assert(s[a] == before[a - 1] && s[b] == before[b - 1]);
                        }
                    }
                }
                r.insert(j, info);
                assert(infos_view(r@) =~= before.insert(j as int, x));
            },
            DocumentSource::Far => {},
        }
    }
    assert(keys@.take(n as int) =~= keys@);
    r
}

// ---------------------------------------------------------------------------
// Summary
// ---------------------------------------------------------------------------

/// The positions of the elements of a kind, per the index.
pub open spec fn type_list(index: Seq<EntryView>, t: ElementType) -> Seq<usize> {
    indices_meeting(index, index.len(), Criterion::OfType(t))
}

/// Summary statistics for a document: its first metadata record (or an empty
/// one), the number of families, requirements and security requirements, and
/// the number of relationships.
pub fn summary(doc: &DocumentContext) -> (s: DataSummary)
    ensures
        doc.documents@.len() > 0 ==> s.document@ == doc.documents@[0]@,
        doc.documents@.len() == 0 ==> s.document@ == (DocumentView {
            doc_identifier: Seq::empty(),
            name: Seq::empty(),
            version: Seq::empty(),
            website: Seq::empty(),
        }),
        s.family_count == type_list(doc.index@, ElementType::Family).len(),
        s.requirement_count == type_list(doc.index@, ElementType::Requirement).len(),
        s.security_requirement_count == type_list(doc.index@, ElementType::SecurityRequirement).len(),
        s.relationship_count == doc.relationships@.len(),
{
    let document = if doc.documents.len() > 0 {
        doc.documents[0].duplicate()
    } else {
        Document::empty()
    };
    DataSummary {
        document,
        family_count: doc.index.count_by_type(ElementType::Family),
        requirement_count: doc.index.count_by_type(ElementType::Requirement),
        security_requirement_count: doc.index.count_by_type(ElementType::SecurityRequirement),
        relationship_count: doc.relationships.len(),
    }
}

// ---------------------------------------------------------------------------
// Families, requirements, security requirements
// ---------------------------------------------------------------------------

/// The assembled families at the listed positions (positions out of range are skipped).
pub open spec fn families_over(
    scores: crate::scoring::ScoreTable,
    validator: crate::scoring::ScoreTable,
    list: Seq<usize>,
    es: Seq<ElementView>,
) -> Seq<FamilyView>
    decreases list.len(),
{
    if list.len() == 0 {
        Seq::empty()
    } else {
        let prev = families_over(scores, validator, list.drop_last(), es);
        if list.last() < es.len() {
            prev.push(family_spec(scores, validator, es[list.last() as int], es))
        } else {
            prev
        }
    }
}

/// The assembled requirements at the listed positions (positions out of range are skipped).
pub open spec fn requirements_over(
    scores: crate::scoring::ScoreTable,
    validator: crate::scoring::ScoreTable,
    list: Seq<usize>,
    es: Seq<ElementView>,
) -> Seq<RequirementView>
    decreases list.len(),
{
    if list.len() == 0 {
        Seq::empty()
    } else {
        let prev = requirements_over(scores, validator, list.drop_last(), es);
        if list.last() < es.len() {
            prev.push(requirement_spec(scores, validator, es[list.last() as int], es))
        } else {
            prev
        }
    }
}

/// The assembled security requirements at the listed positions (positions
/// out of range are skipped).
pub open spec fn security_requirements_over(
    scores: crate::scoring::ScoreTable,
    validator: crate::scoring::ScoreTable,
    list: Seq<usize>,
    es: Seq<ElementView>,
) -> Seq<SecurityRequirementView>
    decreases list.len(),
{
    if list.len() == 0 {
        Seq::empty()
    } else {
        let prev = security_requirements_over(scores, validator, list.drop_last(), es);
        if list.last() < es.len() {
            prev.push(security_requirement_spec(scores, validator, es[list.last() as int], es))
        } else {
            prev
        }
    }
}

/// All families, each with its nested requirements, in index order.
pub fn families(doc: &DocumentContext, scoring_db: &ScoringDatabase, poam_validator: &PoamValidator) -> (r: Vec<Family>)
    ensures
        families_view(r@) == families_over(
            scoring_db@,
            poam_validator.table(),
            type_list(doc.index@, ElementType::Family),
            elements_view(doc.elements@),
        ),
{
    let list = doc.index.get_by_type(ElementType::Family);
    let ghost es = elements_view(doc.elements@);
    let mut r: Vec<Family> = Vec::new();
    let n = list.len();
    for i in 0..n
        invariant
            n == list@.len(),
            es == elements_view(doc.elements@),
            families_view(r@) == families_over(scoring_db@, poam_validator.table(), list@.take(i as int), es),
    {
        proof {
            assert(list@.take(i + 1).drop_last() =~= list@.take(i as int));
            assert(list@.take(i + 1).last() == list@[i as int]);
        }
        let idx = list[i];
        if idx < doc.elements.len() {
            let ghost before = families_view(r@);
            let f = build_family(&doc.elements[idx], doc.elements, scoring_db, poam_validator);
            r.push(f);
            assert(families_view(r@) =~= before.push(
                family_spec(scoring_db@, poam_validator.table(), es[idx as int], es),
            ));
        }
    }
    assert(list@.take(n as int) =~= list@);
    r
}

/// The outcome of looking up a family: the assembled family, or the not-found message.
pub open spec fn family_outcome(
    scores: crate::scoring::ScoreTable,
    validator: crate::scoring::ScoreTable,
    index: Seq<EntryView>,
    es: Seq<ElementView>,
    id: Seq<char>,
) -> Result<FamilyView, Seq<char>> {
    match last_with_identifier(index, id) {
        Some(i) => if i < es.len() && es[i as int].element_type == ElementType::Family {
            Ok(family_spec(scores, validator, es[i as int], es))
        } else {
            Err("Family '"@ + id + "' not found"@)
        },
        None => Err("Family '"@ + id + "' not found"@),
    }
}

/// Builds `prefix + id + suffix`.
fn framed(prefix: &str, id: &str, suffix: &str) -> (r: String)
    ensures
        r@ == prefix@ + id@ + suffix@,
{
    let mut r = concat2(prefix, id);
    r.append(suffix);
    r
}

/// A single family by identifier.
pub fn family(
    doc: &DocumentContext,
    scoring_db: &ScoringDatabase,
    poam_validator: &PoamValidator,
    id: &str,
) -> (r: Result<Family, CoreError>)
    ensures
        match (r, family_outcome(scoring_db@, poam_validator.table(), doc.index@, elements_view(doc.elements@), id@)) {
            (Ok(f), Ok(v)) => f@ == v,
            (Err(CoreError::NotFound(m)), Err(v)) => m@ == v,
            _ => false,
        },
{
    let ghost es = elements_view(doc.elements@);
    let idx = match doc.index.get_by_identifier(id) {
        Some(i) => i,
        None => return Err(CoreError::NotFound(framed("Family '", id, "' not found"))),
    };
    if idx < doc.elements.len() && doc.elements[idx].element_type == ElementType::Family {
        assert(es[idx as int] == doc.elements@[idx as int]@);
        Ok(build_family(&doc.elements[idx], doc.elements, scoring_db, poam_validator))
    } else {
        Err(CoreError::NotFound(framed("Family '", id, "' not found")))
    }
}

/// All requirements across all families, in index order.
pub fn requirements(doc: &DocumentContext, scoring_db: &ScoringDatabase, poam_validator: &PoamValidator) -> (r: Vec<Requirement>)
    ensures
        requirements_view(r@) == requirements_over(
            scoring_db@,
            poam_validator.table(),
            type_list(doc.index@, ElementType::Requirement),
            elements_view(doc.elements@),
        ),
{
    let list = doc.index.get_by_type(ElementType::Requirement);
    let ghost es = elements_view(doc.elements@);
    let mut r: Vec<Requirement> = Vec::new();
    let n = list.len();
    for i in 0..n
        invariant
            n == list@.len(),
            es == elements_view(doc.elements@),
            requirements_view(r@) == requirements_over(scoring_db@, poam_validator.table(), list@.take(i as int), es),
    {
        proof {
            assert(list@.take(i + 1).drop_last() =~= list@.take(i as int));
            assert(list@.take(i + 1).last() == list@[i as int]);
        }
        let idx = list[i];
        if idx < doc.elements.len() {
            let ghost before = requirements_view(r@);
            let x = build_requirement(&doc.elements[idx], doc.elements, scoring_db, poam_validator);
            r.push(x);
            assert(requirements_view(r@) =~= before.push(
                requirement_spec(scoring_db@, poam_validator.table(), es[idx as int], es),
            ));
        }
    }
    assert(list@.take(n as int) =~= list@);
    r
}

/// All security requirements with discussion and assessment text, in index order.
pub fn security_requirements(
    doc: &DocumentContext,
    scoring_db: &ScoringDatabase,
    poam_validator: &PoamValidator,
) -> (r: Vec<SecurityRequirement>)
    ensures
        security_requirements_view(r@) == security_requirements_over(
            scoring_db@,
            poam_validator.table(),
            type_list(doc.index@, ElementType::SecurityRequirement),
            elements_view(doc.elements@),
        ),
{
    let list = doc.index.get_by_type(ElementType::SecurityRequirement);
    let ghost es = elements_view(doc.elements@);
    let mut r: Vec<SecurityRequirement> = Vec::new();
    let n = list.len();
    for i in 0..n
        invariant
            n == list@.len(),
            es == elements_view(doc.elements@),
            security_requirements_view(r@) == security_requirements_over(
                scoring_db@,
                poam_validator.table(),
                list@.take(i as int),
                es,
            ),
    {
        proof {
            assert(list@.take(i + 1).drop_last() =~= list@.take(i as int));
            assert(list@.take(i + 1).last() == list@[i as int]);
        }
        let idx = list[i];
        if idx < doc.elements.len() {
            let ghost before = security_requirements_view(r@);
            let x = build_security_requirement(&doc.elements[idx], doc.elements, scoring_db, poam_validator);
            r.push(x);
            assert(security_requirements_view(r@) =~= before.push(
                security_requirement_spec(scoring_db@, poam_validator.table(), es[idx as int], es),
            ));
        }
    }
    assert(list@.take(n as int) =~= list@);
    r
}

// ---------------------------------------------------------------------------
// Elements
// ---------------------------------------------------------------------------

/// `0, 1, ..., n - 1`.
pub open spec fn all_positions(n: nat) -> Seq<usize> {
    Seq::new(n, |i: int| i as usize)
}

/// The positions an element query selects, before pagination.
pub open spec fn element_filter(
    index: Seq<EntryView>,
    n: nat,
    element_type: Option<ElementType>,
    search: Option<Seq<char>>,
) -> Seq<usize> {
    match (element_type, search) {
        (Some(t), Some(term)) => search_results(index, unicode_lowercase(term), Some(t)),
        (Some(t), None) => type_list(index, t),
        (None, Some(term)) => search_results(index, unicode_lowercase(term), None),
        (None, None) => all_positions(n),
    }
}

/// The part of `list` from `offset` on, at most `limit` long.
pub open spec fn window(list: Seq<usize>, offset: nat, limit: nat) -> Seq<usize> {
    if offset >= list.len() {
        Seq::empty()
    } else if offset + limit >= list.len() {
        list.subrange(offset as int, list.len() as int)
    } else {
        list.subrange(offset as int, (offset + limit) as int)
    }
}

/// The elements at the listed positions (positions out of range are skipped).
pub open spec fn elements_at(list: Seq<usize>, es: Seq<ElementView>) -> Seq<ElementView>
    decreases list.len(),
{
    if list.len() == 0 {
        Seq::empty()
    } else {
        let prev = elements_at(list.drop_last(), es);
        if list.last() < es.len() {
            prev.push(es[list.last() as int])
        } else {
            prev
        }
    }
}

/// The search term of a query.
pub open spec fn query_search(q: ElementQuery) -> Option<Seq<char>> {
    match q.search {
        Some(s) => Some(s@),
        None => None,
    }
}

/// Paginated, optionally filtered list of elements: `total` counts every
/// selected element, `data` holds the page `[offset, offset + limit)` of them.
pub fn elements(doc: &DocumentContext, query: &ElementQuery) -> (r: PaginatedResponse<Element>)
    requires
        query_offset(*query) + query_limit(*query) <= usize::MAX,
    ensures
        ({
            let filtered = element_filter(doc.index@, doc.elements@.len(), query_type(*query), query_search(*query));
            &&& r.total == filtered.len()
            &&& r.offset == query_offset(*query)
            &&& r.limit == query_limit(*query)
            &&& r.has_more == (r.offset + r.limit < r.total)
            &&& elements_view(r.data@) == elements_at(
                window(filtered, r.offset as nat, r.limit as nat),
                elements_view(doc.elements@),
            )
        }),
{
    let ghost es = elements_view(doc.elements@);
    let element_type = query.parse_element_type();
    let filtered: Vec<usize> = match (element_type, &query.search) {
        (Some(et), Some(term)) => doc.index.search(term.as_str(), Some(et)),
        (Some(et), None) => vstd::slice::slice_to_vec(doc.index.get_by_type(et)),
        (None, Some(term)) => doc.index.search(term.as_str(), None),
        (None, None) => {
            let mut all: Vec<usize> = Vec::new();
            let n = doc.elements.len();
            for i in 0..n
                invariant
                    n == doc.elements@.len(),
                    all@ == all_positions(i as nat),
            {
                all.push(i);
                assert(all@ =~= all_positions((i + 1) as nat));
            }
            all
        },
    };
    let ghost f = filtered@;
    assert(f == element_filter(doc.index@, doc.elements@.len(), query_type(*query), query_search(*query)));
    let total = filtered.len();
    let offset = query.offset();
    let limit = query.limit();
    let end = if offset + limit < total { offset + limit } else { total };
    let mut data: Vec<Element> = Vec::new();
    if offset < total {
        assert(f.subrange(offset as int, offset as int) =~= Seq::<usize>::empty());
        for k in offset..end
            invariant
                offset <= end <= total,
                total == f.len(),
                f == filtered@,
                es == elements_view(doc.elements@),
                elements_view(data@) == elements_at(f.subrange(offset as int, k as int), es),
        {
            proof {
                assert(f.subrange(offset as int, k + 1).drop_last() =~= f.subrange(offset as int, k as int));
                assert(f.subrange(offset as int, k + 1).last() == f[k as int]);
            }
            let idx = filtered[k];
            if idx < doc.elements.len() {
                let ghost before = elements_view(data@);
                data.push(doc.elements[idx].duplicate());
                assert(elements_view(data@) =~= before.push(es[idx as int]));
            }
        }
    } else {
        assert(elements_view(data@) =~= Seq::<ElementView>::empty());
    }
    PaginatedResponse { data, total, offset, limit, has_more: offset + limit < total }
}

/// The outcome of looking up an element: the element, or the not-found message.
pub open spec fn element_outcome(index: Seq<EntryView>, es: Seq<ElementView>, id: Seq<char>) -> Result<ElementView, Seq<char>> {
    match last_with_identifier(index, id) {
        Some(i) => if i < es.len() {
            Ok(es[i as int])
        } else {
            Err("Element '"@ + id + "' not found"@)
        },
        None => Err("Element '"@ + id + "' not found"@),
    }
}

/// A single element by identifier.
pub fn element(doc: &DocumentContext, id: &str) -> (r: Result<Element, CoreError>)
    ensures
        match (r, element_outcome(doc.index@, elements_view(doc.elements@), id@)) {
            (Ok(e), Ok(v)) => e@ == v,
            (Err(CoreError::NotFound(m)), Err(v)) => m@ == v,
            _ => false,
        },
{
    match doc.index.get_by_identifier(id) {
        Some(idx) => {
            if idx < doc.elements.len() {
                Ok(doc.elements[idx].duplicate())
            } else {
                Err(CoreError::NotFound(framed("Element '", id, "' not found")))
            }
        },
        None => Err(CoreError::NotFound(framed("Element '", id, "' not found"))),
    }
}

/// The views of a list of relationships.
pub open spec fn relationships_view(v: Seq<Relationship>) -> Seq<RelationshipView> {
    v.map_values(|r: Relationship| r@)
}

/// All relationships in the document.
pub fn relationships(doc: &DocumentContext) -> (r: Vec<Relationship>)
    ensures
        relationships_view(r@) == relationships_view(doc.relationships@),
{
    let mut r: Vec<Relationship> = Vec::new();
    let n = doc.relationships.len();
    for i in 0..n
        invariant
            n == doc.relationships@.len(),
            relationships_view(r@) == relationships_view(doc.relationships@).take(i as int),
    {
        let ghost before = relationships_view(r@);
        r.push(doc.relationships[i].duplicate());
        assert(relationships_view(r@) =~= before.push(doc.relationships@[i as int]@));
        assert(relationships_view(doc.relationships@).take(i + 1) =~= relationships_view(
            doc.relationships@,
        ).take(i as int).push(doc.relationships@[i as int]@));
    }
    assert(relationships_view(doc.relationships@).take(n as int) =~= relationships_view(doc.relationships@));
    r
}

/// The relationships with `id` as source or destination, in order.
pub open spec fn relationships_touching(rs: Seq<RelationshipView>, id: Seq<char>) -> Seq<RelationshipView>
    decreases rs.len(),
{
    if rs.len() == 0 {
        Seq::empty()
    } else {
        let prev = relationships_touching(rs.drop_last(), id);
        if rs.last().source_element_identifier == id || rs.last().dest_element_identifier == id {
            prev.push(rs.last())
        } else {
            prev
        }
    }
}

/// Relationships touching a specific element (as source or destination);
/// not found when no element has the identifier.
pub fn element_relationships(doc: &DocumentContext, id: &str) -> (r: Result<Vec<Relationship>, CoreError>)
    ensures
        match last_with_identifier(doc.index@, id@) {
            Some(_) => r is Ok && relationships_view(r->Ok_0@) == relationships_touching(
                relationships_view(doc.relationships@),
                id@,
            ),
            None => r matches Err(CoreError::NotFound(m)) && m@ == "Element '"@ + id@ + "' not found"@,
        },
{
    match doc.index.get_by_identifier(id) {
        Some(_) => {},
        None => return Err(CoreError::NotFound(framed("Element '", id, "' not found"))),
    }
    let ghost rv = relationships_view(doc.relationships@);
    let mut r: Vec<Relationship> = Vec::new();
    let n = doc.relationships.len();
    for i in 0..n
        invariant
            n == doc.relationships@.len(),
            rv == relationships_view(doc.relationships@),
            relationships_view(r@) == relationships_touching(rv.take(i as int), id@),
    {
        proof {
            assert(rv.take(i + 1).drop_last() =~= rv.take(i as int));
            assert(rv.take(i + 1).last() == rv[i as int]);
        }
        let rel = &doc.relationships[i];
        if str_eq(rel.source_element_identifier.as_str(), id) || str_eq(
            rel.dest_element_identifier.as_str(),
            id,
        ) {
            let ghost before = relationships_view(r@);
            r.push(rel.duplicate());
            assert(relationships_view(r@) =~= before.push(rv[i as int]));
        }
    }
    assert(rv.take(n as int) =~= rv);
    Ok(r)
}

// ---------------------------------------------------------------------------
// POA&M
// ---------------------------------------------------------------------------

/// Request body for batch POA&M validation.
#[derive(Debug, Clone)]
pub struct BatchValidationRequest {
    /// Requirement identifiers to validate.
    pub requirement_ids: Vec<String>,
}

/// Response for batch POA&M validation.
#[derive(Debug, Clone)]
pub struct BatchValidationResponse {
    /// Validation result of each requirement, in request order.
    pub validations: Vec<PoamValidation>,
    /// Number of requirements validated.
    pub total: usize,
    /// Number of eligible requirements.
    pub eligible_count: usize,
    /// Number of not eligible requirements.
    pub not_eligible_count: usize,
    /// Number of conditional requirements.
    pub conditional_count: usize,
}

/// Number of validations with the given eligibility.
pub open spec fn count_eligibility(vs: Seq<PoamValidationView>, e: PoamEligibility) -> nat
    decreases vs.len(),
{
    if vs.len() == 0 {
        0
    } else {
        count_eligibility(vs.drop_last(), e) + if vs.last().eligibility == e { 1nat } else { 0nat }
    }
}

/// The views of a list of validations.
pub open spec fn validations_view(v: Seq<PoamValidation>) -> Seq<PoamValidationView> {
    v.map_values(|x: PoamValidation| x@)
}

/// Validate a single requirement for POA&M eligibility.
pub fn validate_poam_requirement(poam_validator: &PoamValidator, requirement_id: &str) -> (r: PoamValidation)
    ensures
        r@ == validation_for(poam_validator.table(), requirement_id@),
{
    poam_validator.validate(requirement_id)
}

/// Validate a batch of requirements, returning per-requirement results and
/// the number of results of each eligibility.
pub fn validate_poam_batch(poam_validator: &PoamValidator, requirement_ids: &[String]) -> (r: BatchValidationResponse)
    ensures
        r.validations@.len() == requirement_ids@.len(),
        forall|i: int|
            0 <= i < requirement_ids@.len() ==> (#[trigger] r.validations@[i])@ == validation_for(
                poam_validator.table(),
                requirement_ids@[i]@,
            ),
        r.total == requirement_ids@.len(),
        r.eligible_count == count_eligibility(validations_view(r.validations@), PoamEligibility::Eligible),
        r.not_eligible_count == count_eligibility(
            validations_view(r.validations@),
            PoamEligibility::NotEligible,
        ),
        r.conditional_count == count_eligibility(
            validations_view(r.validations@),
            PoamEligibility::Conditional,
        ),
{
    let validations = poam_validator.validate_batch(requirement_ids);
    let ghost vs = validations_view(validations@);
    let n = validations.len();
    let mut eligible_count: usize = 0;
    let mut not_eligible_count: usize = 0;
    let mut conditional_count: usize = 0;
    for i in 0..n
        invariant
            n == validations@.len(),
            vs == validations_view(validations@),
            eligible_count == count_eligibility(vs.take(i as int), PoamEligibility::Eligible),
            not_eligible_count == count_eligibility(vs.take(i as int), PoamEligibility::NotEligible),
            conditional_count == count_eligibility(vs.take(i as int), PoamEligibility::Conditional),
            eligible_count + not_eligible_count + conditional_count == i,
    {
        proof {
            assert(vs.take(i + 1).drop_last() =~= vs.take(i as int));
            assert(vs.take(i + 1).last() == vs[i as int]);
        }
        match validations[i].eligibility {
            PoamEligibility::Eligible => eligible_count = eligible_count + 1,
            PoamEligibility::NotEligible => not_eligible_count = not_eligible_count + 1,
            PoamEligibility::Conditional => conditional_count = conditional_count + 1,
        }
    }
    assert(vs.take(n as int) =~= vs);
    BatchValidationResponse {
        total: n,
        eligible_count,
        not_eligible_count,
        conditional_count,
        validations,
    }
}

/// All requirement identifiers that can never be added to a POA&M, sorted.
pub fn non_eligible(poam_validator: &PoamValidator) -> (r: Vec<String>)
    ensures
        crate::order::lex_sorted(crate::order::strings_view(r@)),
        crate::order::strings_view(r@).to_multiset() == crate::poam::non_eligible_ids(
            poam_validator.table(),
            crate::poam::table_ids(poam_validator.table()),
        ).to_multiset(),
        crate::order::strings_view(r@).no_duplicates(),
{
    poam_validator.get_non_eligible_requirements()
}

/// The three eligibility counts add up to the number of validations.
pub proof fn lemma_counts_cover_all(vs: Seq<PoamValidationView>)
    ensures
        count_eligibility(vs, PoamEligibility::Eligible) + count_eligibility(vs, PoamEligibility::NotEligible)
            + count_eligibility(vs, PoamEligibility::Conditional) == vs.len(),
    decreases vs.len(),
{
    if vs.len() > 0 {
        lemma_counts_cover_all(vs.drop_last());
    }
}

/// Pages fit together: the page of size `a` at `offset`, followed by the page
/// of size `b` right after it, is the page of size `a + b` at `offset`.
pub proof fn lemma_window_concat(list: Seq<usize>, offset: nat, a: nat, b: nat)
    ensures
        window(list, offset, a) + window(list, offset + a, b) == window(list, offset, a + b),
{
    let n = list.len();
    if offset >= n {
        assert(window(list, offset, a) + window(list, offset + a, b) =~= Seq::<usize>::empty());
    } else if offset + a >= n {
        assert(window(list, offset, a) + window(list, offset + a, b) =~= list.subrange(offset as int, n as int));
    } else if offset + a + b >= n {
        assert(window(list, offset, a) + window(list, offset + a, b) =~= list.subrange(offset as int, n as int));
    } else {
        assert(window(list, offset, a) + window(list, offset + a, b) =~= list.subrange(
            offset as int,
            (offset + a + b) as int,
        ));
    }
}

} // verus!
