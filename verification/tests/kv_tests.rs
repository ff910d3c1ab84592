use tolerance_api::error::CoreError;
use tolerance_api::kv::ingest::{emit_document, index_pair, write_pages, BulkPair, KvValue};
use tolerance_api::kv::keys;
use tolerance_api::kv::keys::{PageManifest, ELEMENTS_PER_PAGE};
use tolerance_api::kv::span::{collect_span, missing_bucket, page_span, span_response};
use tolerance_api::model::{
    Document, DocumentKey, DocumentRevision, Element, ElementType, FarDocument, NistData, NistDocument,
    NistElements, NistResponse, Relationship,
};
use tolerance_api::poam::PoamValidator;
use tolerance_api::scoring::ScoringDatabase;
use tolerance_api::service::document_info;

fn el(element_type: ElementType, id: &str, title: &str, text: &str) -> Element {
    Element {
        element_type,
        element_identifier: id.to_string(),
        title: title.to_string(),
        text: text.to_string(),
        doc_identifier: "SP_800_171_3_0_0".to_string(),
    }
}

fn rel(source: &str, dest: &str) -> Relationship {
    Relationship {
        source_element_identifier: source.to_string(),
        source_doc_identifier: "D".to_string(),
        dest_element_identifier: dest.to_string(),
        dest_doc_identifier: "D".to_string(),
        relationship_identifier: "contains".to_string(),
        provenance_doc_identifier: "D".to_string(),
    }
}

fn sample_data() -> NistData {
    NistData {
        response: NistResponse {
            request_type: 1,
            elements: NistElements {
                documents: vec![Document {
                    doc_identifier: "SP_800_171_3_0_0".to_string(),
                    name: "NIST SP 800-171 Rev 3".to_string(),
                    version: "3.0.0".to_string(),
                    website: "https://csrc.nist.gov".to_string(),
                }],
                relationship_types: vec![],
                elements: vec![
                    el(ElementType::Family, "03.01", "Access Control", ""),
                    el(ElementType::Requirement, "03.01.01", "Account Management", "Manage system accounts."),
                    el(ElementType::SecurityRequirement, "SR-03.01.01.a", "", "Define account types."),
                    el(ElementType::Discussion, "SR-03.01.01.a", "", "Accounts matter."),
                ],
                relationships: vec![rel("03.01", "03.01.01"), rel("03.01.01", "SR-03.01.01.a")],
            },
        },
    }
}

fn r3() -> DocumentKey {
    DocumentKey::nist(NistDocument::Sp800171, DocumentRevision::Rev3)
}

fn numbered(n: usize) -> Vec<Element> {
    (0..n).map(|i| el(ElementType::Example, &format!("E{i}"), "", "")).collect()
}

fn find<'a>(pairs: &'a [BulkPair], key: &str) -> Option<&'a KvValue> {
    pairs.iter().find(|p| p.key == key).map(|p| &p.value)
}

fn ids_of(v: Option<&KvValue>) -> Vec<String> {
    match v {
        Some(KvValue::Identifiers(ids)) => ids.clone(),
        _ => panic!("expected identifiers"),
    }
}

#[test]
fn key_layout() {
    assert_eq!(keys::index(), "t:1:index");
    assert_eq!(keys::summary(r3()), "t:1:sp800-171:r3:summary");
    assert_eq!(keys::family(r3(), "03.01"), "t:1:sp800-171:r3:family:03.01");
    assert_eq!(keys::element_rels(r3(), "03.01.01"), "t:1:sp800-171:r3:el:03.01.01:rels");
    assert_eq!(keys::elements_page(r3(), "all", 12), "t:1:sp800-171:r3:elements:all:p12");
    assert_eq!(keys::elements_manifest(r3(), "family"), "t:1:sp800-171:r3:elements:family:manifest");
    assert_eq!(keys::ids(r3(), "requirement"), "t:1:sp800-171:r3:ids:requirement");
    assert_eq!(keys::token(r3(), "account"), "t:1:sp800-171:r3:idx:tok:account");
    let far = DocumentKey::far(FarDocument::Far52_204_21, DocumentRevision::V2);
    assert_eq!(keys::relationships(far), "t:1:52.204-21:v2:rels");
    assert_eq!(keys::requirements(r3()), "t:1:sp800-171:r3:requirements");
    assert_eq!(keys::secreq(r3()), "t:1:sp800-171:r3:secreq");
    assert_eq!(keys::families(r3()), "t:1:sp800-171:r3:families");
    assert_eq!(keys::element(r3(), "x"), "t:1:sp800-171:r3:el:x");
}

#[test]
fn pages_hold_consecutive_items() {
    let items = numbered(250);
    let mut pairs: Vec<BulkPair> = Vec::new();
    write_pages(&mut pairs, r3(), "all", &items);
    assert_eq!(pairs.len(), 4);
    match &pairs[0].value {
        KvValue::Manifest(m) => {
            assert_eq!((m.total, m.page_size, m.page_count), (250, ELEMENTS_PER_PAGE, 3));
        },
        _ => panic!("expected the manifest first"),
    }
    let sizes: Vec<usize> = pairs[1..]
        .iter()
        .map(|p| match &p.value {
            KvValue::Elements(v) => v.len(),
            _ => panic!("expected a page"),
        })
        .collect();
    assert_eq!(sizes, vec![100, 100, 50]);
    assert_eq!(pairs[3].key, "t:1:sp800-171:r3:elements:all:p2");
    match &pairs[3].value {
        KvValue::Elements(v) => assert_eq!(v[0].element_identifier, "E200"),
        _ => unreachable!(),
    }
}

#[test]
fn empty_bucket_has_a_manifest_and_no_pages() {
    let mut pairs: Vec<BulkPair> = Vec::new();
    write_pages(&mut pairs, r3(), "odp", &[]);
    assert_eq!(pairs.len(), 1);
    assert!(matches!(&pairs[0].value, KvValue::Manifest(m) if m.total == 0 && m.page_count == 0));
}

#[test]
fn span_reads_back_the_window() {
    let items = numbered(250);
    let mut pairs: Vec<BulkPair> = Vec::new();
    write_pages(&mut pairs, r3(), "all", &items);
    let manifest = PageManifest { total: 250, page_size: ELEMENTS_PER_PAGE, page_count: 3 };
    let sp = page_span(&manifest, 150, 100).expect("non-empty window");
    assert_eq!((sp.first_page, sp.last_page, sp.local_start, sp.take), (1, 2, 50, 100));
    let pages: Vec<Vec<Element>> = (sp.first_page..=sp.last_page)
        .map(|p| match &pairs[p + 1].value {
            KvValue::Elements(v) => v.clone(),
            _ => unreachable!(),
        })
        .collect();
    let window = collect_span(pages, sp.local_start, sp.take);
    let ids: Vec<String> = window.iter().map(|e| e.element_identifier.clone()).collect();
    let expected: Vec<String> = (150..250).map(|i| format!("E{i}")).collect();
    assert_eq!(ids, expected);
    // A window past the end holds nothing.
    assert!(page_span(&manifest, 300, 10).is_none());
    assert!(page_span(&manifest, 10, 0).is_none());
    // A window that runs over the end is clamped.
    let clamped = page_span(&manifest, 240, 100).expect("non-empty");
    assert_eq!((clamped.first_page, clamped.last_page, clamped.local_start, clamped.take), (2, 2, 40, 10));
    // A zero page size counts as one.
    let odd = PageManifest { total: 5, page_size: 0, page_count: 5 };
    let s = page_span(&odd, 2, 2).expect("non-empty");
    assert_eq!((s.first_page, s.last_page, s.local_start, s.take), (2, 3, 0, 2));
}

#[test]
fn collect_span_stops_where_pages_run_out() {
    let pages = vec![numbered(3)];
    let got = collect_span(pages, 2, 5);
    assert_eq!(got.len(), 1);
    assert_eq!(got[0].element_identifier, "E2");
    assert!(collect_span(vec![numbered(2)], 5, 1).is_empty());
}

#[test]
fn span_response_and_missing_bucket() {
    let manifest = PageManifest { total: 250, page_size: 100, page_count: 3 };
    let r = span_response(&manifest, numbered(2), 10, 2);
    assert_eq!((r.total, r.offset, r.limit, r.has_more), (250, 10, 2, true));
    let last = span_response(&manifest, numbered(50), 200, 50);
    assert!(!last.has_more);
    let huge = span_response(&manifest, vec![], usize::MAX, usize::MAX);
    assert!(!huge.has_more);
    match missing_bucket(r3(), true, 5, 10) {
        Ok(p) => assert!(p.data.is_empty() && p.total == 0 && p.offset == 5 && p.limit == 10 && !p.has_more),
        Err(_) => panic!("a loaded document answers with an empty page"),
    }
    match missing_bucket(r3(), false, 0, 10) {
        Err(CoreError::NotFound(m)) => assert_eq!(m, "Document sp800-171/r3 not loaded"),
        _ => panic!("expected not found"),
    }
}

#[test]
fn emitted_document_layout() {
    let data = sample_data();
    let scoring = ScoringDatabase::new();
    let validator = PoamValidator::new(ScoringDatabase::new());
    let mut pairs: Vec<BulkPair> = Vec::new();
    emit_document(&mut pairs, r3(), &data, &scoring, &validator);

    assert_eq!(pairs[0].key, "t:1:sp800-171:r3:summary");
    match &pairs[0].value {
        KvValue::Summary(s) => {
            assert_eq!(s.family_count, 1);
            assert_eq!(s.requirement_count, 1);
            assert_eq!(s.security_requirement_count, 1);
            assert_eq!(s.relationship_count, 2);
        },
        _ => panic!("expected the summary first"),
    }
    assert!(matches!(find(&pairs, "t:1:sp800-171:r3:families"), Some(KvValue::Families(f)) if f.len() == 1));
    assert!(matches!(find(&pairs, "t:1:sp800-171:r3:family:03.01"), Some(KvValue::Family(f)) if f.requirements.len() == 1));
    assert!(matches!(find(&pairs, "t:1:sp800-171:r3:requirements"), Some(KvValue::Requirements(r)) if r.len() == 1));
    assert!(matches!(find(&pairs, "t:1:sp800-171:r3:secreq"), Some(KvValue::SecurityRequirements(r)) if r.len() == 1));
    assert!(matches!(find(&pairs, "t:1:sp800-171:r3:rels"), Some(KvValue::Relationships(r)) if r.len() == 2));

    // The last element with an identifier is the one stored.
    assert!(matches!(
        find(&pairs, "t:1:sp800-171:r3:el:SR-03.01.01.a"),
        Some(KvValue::Element(e)) if e.element_type == ElementType::Discussion
    ));
    assert_eq!(pairs.iter().filter(|p| p.key == "t:1:sp800-171:r3:el:SR-03.01.01.a").count(), 1);
    assert!(matches!(find(&pairs, "t:1:sp800-171:r3:el:03.01.01:rels"), Some(KvValue::Relationships(r)) if r.len() == 2));

    assert!(matches!(
        find(&pairs, "t:1:sp800-171:r3:elements:all:manifest"),
        Some(KvValue::Manifest(m)) if m.total == 4 && m.page_count == 1
    ));
    assert_eq!(ids_of(find(&pairs, "t:1:sp800-171:r3:ids:requirement")), vec!["03.01.01".to_string()]);
    assert!(find(&pairs, "t:1:sp800-171:r3:ids:assessment").is_none());

    // Posting lists: document order, each identifier once.
    assert_eq!(
        ids_of(find(&pairs, "t:1:sp800-171:r3:idx:tok:account")),
        vec!["03.01.01".to_string(), "SR-03.01.01.a".to_string()]
    );
    assert_eq!(
        ids_of(find(&pairs, "t:1:sp800-171:r3:idx:tok:sr")),
        vec!["SR-03.01.01.a".to_string()]
    );
    assert_eq!(pairs.iter().filter(|p| p.key == "t:1:sp800-171:r3:idx:tok:03").count(), 1);
}

#[test]
fn index_pair_lists_documents() {
    let p = index_pair(vec![document_info(&r3())]);
    assert_eq!(p.key, "t:1:index");
    match p.value {
        KvValue::Documents(d) => assert_eq!(d[0].id, "sp800-171/r3"),
        _ => panic!("expected documents"),
    }
}
