use tolerance_api::assemble::{build_family, build_requirement, build_security_requirement};
use tolerance_api::document::DocumentData;
use tolerance_api::error::CoreError;
use tolerance_api::model::{
    Document, DocumentKey, DocumentRevision, Element, ElementType, FarDocument, NistData, NistDocument,
    NistElements, NistResponse, Relationship,
};
use tolerance_api::poam::{PoamEligibility, PoamValidator};
use tolerance_api::query::ElementQuery;
use tolerance_api::scoring::{CmmcLevel, ScoreJson, ScoringDatabase};
use tolerance_api::service::{
    element, element_relationships, elements, families, family, list_nist_documents, non_eligible,
    relationships, requirements, security_requirements, summary, validate_poam_batch,
    validate_poam_requirement,
};
use tolerance_api::state::CmmcState;

fn el(element_type: ElementType, id: &str, title: &str, text: &str) -> Element {
    Element {
        element_type,
        element_identifier: id.to_string(),
        title: title.to_string(),
        text: text.to_string(),
        doc_identifier: "SP_800_171_3_0_0".to_string(),
    }
}

fn rel(source: &str, dest: &str) -> Relationship {
    Relationship {
        source_element_identifier: source.to_string(),
        source_doc_identifier: "SP_800_171_3_0_0".to_string(),
        dest_element_identifier: dest.to_string(),
        dest_doc_identifier: "SP_800_171_3_0_0".to_string(),
        relationship_identifier: "contains".to_string(),
        provenance_doc_identifier: "SP_800_171_3_0_0".to_string(),
    }
}

fn sample_data() -> NistData {
    NistData {
        response: NistResponse {
            request_type: 1,
            elements: NistElements {
                documents: vec![Document {
                    doc_identifier: "SP_800_171_3_0_0".to_string(),
                    name: "NIST SP 800-171 Rev 3".to_string(),
                    version: "3.0.0".to_string(),
                    website: "https://csrc.nist.gov".to_string(),
                }],
                relationship_types: vec![],
                elements: vec![
                    el(ElementType::Family, "03.01", "Access Control", ""),
                    el(ElementType::Requirement, "03.01.01", "Account Management", "Manage system accounts."),
                    el(ElementType::SecurityRequirement, "SR-03.01.01.a", "", "Define account types."),
                    el(ElementType::Discussion, "SR-03.01.01.a", "", "Accounts matter."),
                    el(ElementType::Requirement, "03.01.02", "Access Enforcement", "Enforce approved authorizations."),
                    el(ElementType::Family, "03.02", "Awareness and Training", ""),
                    el(ElementType::Requirement, "03.02.01", "Literacy Training", "Provide training."),
                ],
                relationships: vec![rel("03.01", "03.01.01"), rel("03.01.01", "SR-03.01.01.a"), rel("03.02", "03.02.01")],
            },
        },
    }
}

fn r3() -> DocumentKey {
    DocumentKey::nist(NistDocument::Sp800171, DocumentRevision::Rev3)
}

fn query(element_type: Option<&str>, search: Option<&str>, limit: Option<usize>, offset: Option<usize>) -> ElementQuery {
    ElementQuery {
        element_type: element_type.map(|s| s.to_string()),
        search: search.map(|s| s.to_string()),
        limit,
        offset,
    }
}

#[test]
fn summary_counts_each_kind() {
    let data = DocumentData::new(sample_data());
    let doc = data.context();
    let s = summary(&doc);
    assert_eq!(s.document.name, "NIST SP 800-171 Rev 3");
    assert_eq!(s.family_count, 2);
    assert_eq!(s.requirement_count, 3);
    assert_eq!(s.security_requirement_count, 1);
    assert_eq!(s.relationship_count, 3);
}

#[test]
fn summary_of_a_document_without_metadata_is_empty() {
    let mut d = sample_data();
    d.response.elements.documents.clear();
    let data = DocumentData::new(d);
    let s = summary(&data.context());
    assert_eq!(s.document.name, "");
    assert_eq!(s.document.doc_identifier, "");
}

#[test]
fn families_nest_requirements_and_security_requirements() {
    let data = DocumentData::new(sample_data());
    let doc = data.context();
    let scoring = ScoringDatabase::new();
    let validator = PoamValidator::new(ScoringDatabase::new());
    let fs = families(&doc, &scoring, &validator);
    assert_eq!(fs.len(), 2);
    assert_eq!(fs[0].identifier, "03.01");
    let req_ids: Vec<&str> = fs[0].requirements.iter().map(|r| r.identifier.as_str()).collect();
    assert_eq!(req_ids, vec!["03.01.01", "03.01.02"]);
    let r = &fs[0].requirements[0];
    assert_eq!(r.security_requirements.len(), 1);
    let sr = &r.security_requirements[0];
    assert_eq!(sr.identifier, "SR-03.01.01.a");
    assert_eq!(sr.discussion.as_deref(), Some("Accounts matter."));
    assert_eq!(sr.assessment, None);
    let score = r.score.as_ref().expect("03.01.01 is scored");
    assert_eq!(score.point_value, 5);
    assert_eq!(score.cmmc_level, CmmcLevel::Level1);
    let v = r.poam_validation.as_ref().expect("validated");
    assert_eq!(v.eligibility, PoamEligibility::NotEligible);
    // The security requirement carries its parent's score.
    assert_eq!(sr.score.as_ref().map(|s| s.point_value), Some(5));
    assert_eq!(fs[1].requirements.len(), 1);
}

#[test]
fn family_lookup_and_not_found() {
    let data = DocumentData::new(sample_data());
    let doc = data.context();
    let scoring = ScoringDatabase::new();
    let validator = PoamValidator::new(ScoringDatabase::new());
    let f = family(&doc, &scoring, &validator, "03.02").ok().expect("family exists");
    assert_eq!(f.title, "Awareness and Training");
    match family(&doc, &scoring, &validator, "03.09") {
        Err(CoreError::NotFound(m)) => assert_eq!(m, "Family '03.09' not found"),
        _ => panic!("expected not found"),
    }
    // A requirement identifier is not a family.
    assert!(matches!(family(&doc, &scoring, &validator, "03.01.01"), Err(CoreError::NotFound(_))));
}

#[test]
fn requirement_and_security_requirement_lists() {
    let data = DocumentData::new(sample_data());
    let doc = data.context();
    let scoring = ScoringDatabase::new();
    let validator = PoamValidator::new(ScoringDatabase::new());
    let rs = requirements(&doc, &scoring, &validator);
    let ids: Vec<&str> = rs.iter().map(|r| r.identifier.as_str()).collect();
    assert_eq!(ids, vec!["03.01.01", "03.01.02", "03.02.01"]);
    let srs = security_requirements(&doc, &scoring, &validator);
    assert_eq!(srs.len(), 1);
    assert_eq!(srs[0].text, "Define account types.");
}

#[test]
fn build_functions_assemble_single_items() {
    let d = sample_data();
    let es = &d.response.elements.elements;
    let scoring = ScoringDatabase::new();
    let validator = PoamValidator::new(ScoringDatabase::new());
    let f = build_family(&es[5], es, &scoring, &validator);
    assert_eq!(f.requirements.len(), 1);
    let r = build_requirement(&es[4], es, &scoring, &validator);
    assert_eq!(r.identifier, "03.01.02");
    assert!(r.security_requirements.is_empty());
    let sr = build_security_requirement(&es[2], es, &scoring, &validator);
    assert_eq!(sr.poam_validation.map(|v| v.requirement_id), Some("03.01.01".to_string()));
}

#[test]
fn elements_filter_and_paginate() {
    let data = DocumentData::new(sample_data());
    let doc = data.context();
    let page = elements(&doc, &query(Some("Requirement"), None, Some(2), Some(1)));
    assert_eq!(page.total, 3);
    assert_eq!(page.offset, 1);
    assert_eq!(page.limit, 2);
    assert!(!page.has_more);
    let ids: Vec<&str> = page.data.iter().map(|e| e.element_identifier.as_str()).collect();
    assert_eq!(ids, vec!["03.01.02", "03.02.01"]);

    let all = elements(&doc, &query(None, None, None, None));
    assert_eq!(all.total, 7);
    assert_eq!(all.limit, 100);
    assert_eq!(all.data.len(), 7);

    let first = elements(&doc, &query(None, None, Some(3), None));
    assert!(first.has_more);
    assert_eq!(first.data.len(), 3);

    let past_end = elements(&doc, &query(None, None, Some(3), Some(50)));
    assert!(past_end.data.is_empty());
    assert_eq!(past_end.total, 7);
}

#[test]
fn elements_search_by_word_then_text() {
    let data = DocumentData::new(sample_data());
    let doc = data.context();
    let by_word = elements(&doc, &query(None, Some("Account"), None, None));
    let ids: Vec<&str> = by_word.data.iter().map(|e| e.element_identifier.as_str()).collect();
    assert_eq!(ids, vec!["03.01.01", "SR-03.01.01.a"]);
    let filtered = elements(&doc, &query(Some("security_requirement"), Some("account"), None, None));
    assert_eq!(filtered.total, 1);
    let by_text = elements(&doc, &query(None, Some("approved auth"), None, None));
    assert_eq!(by_text.total, 1);
    assert_eq!(by_text.data[0].element_identifier, "03.01.02");
}

#[test]
fn unknown_type_filter_is_ignored() {
    let data = DocumentData::new(sample_data());
    let doc = data.context();
    let page = elements(&doc, &query(Some("nonsense"), None, None, None));
    assert_eq!(page.total, 7);
}

#[test]
fn element_lookup_and_relationships() {
    let data = DocumentData::new(sample_data());
    let doc = data.context();
    let e = element(&doc, "03.01.02").ok().expect("exists");
    assert_eq!(e.title, "Access Enforcement");
    // Duplicate identifiers resolve to the last element.
    let d = element(&doc, "SR-03.01.01.a").ok().expect("exists");
    assert_eq!(d.element_type, ElementType::Discussion);
    match element(&doc, "nope") {
        Err(CoreError::NotFound(m)) => assert_eq!(m, "Element 'nope' not found"),
        _ => panic!("expected not found"),
    }
    let rels = element_relationships(&doc, "03.01.01").ok().expect("exists");
    assert_eq!(rels.len(), 2);
    assert!(matches!(element_relationships(&doc, "nope"), Err(CoreError::NotFound(_))));
    assert_eq!(relationships(&doc).len(), 3);
}

#[test]
fn document_list_keeps_nist_sorted_by_id() {
    let keys = vec![
        r3(),
        DocumentKey::far(FarDocument::Far52_204_21, DocumentRevision::V2),
        DocumentKey::nist(NistDocument::Sp800171, DocumentRevision::Rev2),
    ];
    let docs = list_nist_documents(&keys);
    let ids: Vec<&str> = docs.iter().map(|d| d.id.as_str()).collect();
    assert_eq!(ids, vec!["sp800-171/r2", "sp800-171/r3"]);
    assert_eq!(docs[0].name, "SP 800-171 Rev 2");
    assert_eq!(docs[1].document, "sp800-171");
    assert_eq!(docs[1].revision, "r3");
}

#[test]
fn poam_batch_counts_each_outcome() {
    let validator = PoamValidator::default();
    let ids = vec!["03.01.01".to_string(), "03.13.11".to_string(), "99.99.99".to_string()];
    let r = validate_poam_batch(&validator, &ids);
    assert_eq!(r.total, 3);
    assert_eq!(r.eligible_count, 0);
    assert_eq!(r.not_eligible_count, 1);
    assert_eq!(r.conditional_count, 2);
    assert_eq!(r.eligible_count + r.not_eligible_count + r.conditional_count, r.total);
    assert_eq!(r.validations[2].requirement_id, "99.99.99");
    let single = validate_poam_requirement(&validator, "03.01.01");
    assert_eq!(single.eligibility, PoamEligibility::NotEligible);
    let ne = non_eligible(&validator);
    let mut sorted = ne.clone();
    sorted.sort();
    assert_eq!(ne, sorted);
    let mut distinct = ne.clone();
    distinct.dedup();
    assert_eq!(distinct, ne);
    assert!(ne.contains(&"03.05.03".to_string()));
}

#[test]
fn state_keeps_last_dataset_per_key() {
    let mut later = sample_data();
    later.response.elements.elements.truncate(2);
    let r2 = DocumentKey::nist(NistDocument::Sp800171, DocumentRevision::Rev2);
    let state = CmmcState::new(vec![(r3(), sample_data()), (r2, sample_data()), (r3(), later)]);
    let mut keys = state.available_documents();
    assert_eq!(keys.len(), 2);
    keys.sort_by_key(|k| k.to_string());
    assert_eq!(keys, vec![r2, r3()]);
    let doc = state.get_document(r3()).expect("loaded");
    assert_eq!(doc.elements.len(), 2);
    assert_eq!(state.get_document(r2).expect("loaded").elements.len(), 7);
    assert!(state.get_document(DocumentKey::nist(NistDocument::Sp800172, DocumentRevision::V1)).is_none());
    assert_eq!(state.get_element(r3(), 1).map(|e| e.element_identifier.clone()), Some("03.01.01".to_string()));
    assert!(state.get_element(r3(), 2).is_none());
    assert!(state.get_element(DocumentKey::far(FarDocument::Far52_204_21, DocumentRevision::V2), 0).is_none());
    assert!(state.scoring_db().get_score("03.01.01").is_some());
    assert_eq!(state.poam_validator().validate("03.05.03").eligibility, PoamEligibility::NotEligible);
}

#[test]
fn consecutive_pages_cover_the_listing() {
    let data = DocumentData::new(sample_data());
    let doc = data.context();
    let all = elements(&doc, &query(None, None, None, None));
    let mut joined: Vec<String> = Vec::new();
    let mut offset = 0;
    loop {
        let page = elements(&doc, &query(None, None, Some(2), Some(offset)));
        joined.extend(page.data.iter().map(|e| e.element_identifier.clone()));
        if !page.has_more {
            break;
        }
        offset += 2;
    }
    let expected: Vec<String> = all.data.iter().map(|e| e.element_identifier.clone()).collect();
    assert_eq!(joined, expected);
}

#[test]
fn state_takes_a_given_scoring_table() {
    let records = vec![(
        "03.01.01".to_string(),
        ScoreJson { cmmc_level: 2, point_value: 1, is_foundational: false, priority: "Low".to_string(), notes: None },
    )];
    let state = CmmcState::with_scoring(
        vec![(r3(), sample_data())],
        ScoringDatabase::from_entries(&records),
        ScoringDatabase::from_entries(&records),
    );
    assert_eq!(state.scoring_db().get_score("03.01.01").map(|s| s.point_value), Some(1));
    assert!(state.scoring_db().get_score("03.01.02").is_none());
    assert_eq!(state.poam_validator().validate("3.1.1").eligibility, PoamEligibility::Eligible);
    let ids = state.scoring_db().all_requirement_ids();
    assert_eq!(ids, vec!["03.01.01".to_string()]);
}
