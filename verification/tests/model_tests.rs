use tolerance_api::encode::wants_toon;
use tolerance_api::error::CoreError;
use tolerance_api::format_response::FormatResponse;
use tolerance_api::model::{DocumentKey, DocumentRevision, DocumentSource, ElementType, FarDocument, NistDocument};
use tolerance_api::query::{
    parse_far_document_key, parse_nist_document_key, ElementQuery, FAR_REVISION_MESSAGE,
    SP800_171_VERSION_MESSAGE, SP800_172_REVISION_MESSAGE,
};

fn bad_request(r: Result<DocumentKey, CoreError>) -> String {
    match r {
        Err(CoreError::BadRequest(m)) => m,
        _ => panic!("expected a bad request"),
    }
}

#[test]
fn document_names_and_aliases() {
    assert_eq!(NistDocument::parse("SP800-171"), Ok(NistDocument::Sp800171));
    assert_eq!(NistDocument::parse("171a"), Ok(NistDocument::Sp800171A));
    assert_eq!(NistDocument::parse("800-172A"), Ok(NistDocument::Sp800172A));
    assert_eq!(
        NistDocument::parse("sp800-53"),
        Err("Unknown NIST document: 'sp800-53'. Use 'sp800-171', 'sp800-171a', 'sp800-172', or 'sp800-172a'.".to_string())
    );
    assert_eq!("52.204.21".parse::<FarDocument>(), Ok(FarDocument::Far52_204_21));
    assert_eq!(FarDocument::parse("far"), Err("Unknown FAR document: 'far'. Use '52.204-21'.".to_string()));
    assert_eq!("Rev2".parse::<DocumentRevision>(), Ok(DocumentRevision::Rev2));
    assert_eq!(DocumentRevision::parse("1.0"), Ok(DocumentRevision::V1));
    assert_eq!(
        DocumentRevision::parse("r9"),
        Err("Unknown revision: 'r9'. Use 'r1', 'r2', 'r3', 'v1', or 'v2'.".to_string())
    );
    assert_eq!(NistDocument::Sp800172.as_str(), "sp800-172");
    assert_eq!(DocumentRevision::V2.as_str(), "v2");
    assert_eq!(FarDocument::Far52_204_21.as_str(), "52.204-21");
}

#[test]
fn document_key_texts() {
    let r3 = DocumentKey::nist(NistDocument::Sp800171, DocumentRevision::Rev3);
    assert_eq!(r3.to_string(), "sp800-171/r3");
    assert_eq!(r3.display_name(), "SP 800-171 Rev 3");
    assert_eq!(r3.cprt_identifier(), "sp_800_171_3_0_0");
    assert_eq!(r3.source(), DocumentSource::Nist);
    assert_eq!(r3.document_string(), "sp800-171");
    assert_eq!(r3.revision_string(), "r3");
    let a = DocumentKey::nist(NistDocument::Sp800171A, DocumentRevision::Rev3);
    assert_eq!(a.cprt_identifier(), "sp_800_171_a_3_0_0");
    assert_eq!(a.display_name(), "SP 800-171A Rev 3");
    let odd = DocumentKey::nist(NistDocument::Sp800171A, DocumentRevision::Rev1);
    assert_eq!(odd.cprt_identifier(), "unknown");
    assert_eq!(odd.display_name(), "sp800-171a r1");
    let far = DocumentKey::far(FarDocument::Far52_204_21, DocumentRevision::V2);
    assert_eq!(far.display_name(), "FAR 52.204-21");
    assert_eq!(far.cprt_identifier(), "far_52_204_21");
    assert_eq!(far.source(), DocumentSource::Far);
    assert_eq!(far.to_string(), "52.204-21/v2");
    let far_r1 = DocumentKey::far(FarDocument::Far52_204_21, DocumentRevision::Rev1);
    assert_eq!(far_r1.display_name(), "FAR 52.204-21 r1");
}

#[test]
fn parsing_path_segments_into_keys() {
    assert_eq!(
        parse_nist_document_key("SP800-171", "R3").ok(),
        Some(DocumentKey::nist(NistDocument::Sp800171, DocumentRevision::Rev3))
    );
    assert_eq!(
        parse_nist_document_key("172", "v1").ok(),
        Some(DocumentKey::nist(NistDocument::Sp800172, DocumentRevision::V1))
    );
    assert_eq!(bad_request(parse_nist_document_key("sp800-171", "v1")), SP800_171_VERSION_MESSAGE);
    assert_eq!(bad_request(parse_nist_document_key("sp800-172", "r3")), SP800_172_REVISION_MESSAGE);
    assert!(bad_request(parse_nist_document_key("sp800-53", "r5")).starts_with("Unknown NIST document: 'sp800-53'"));
    assert!(bad_request(parse_nist_document_key("sp800-171", "r9")).starts_with("Unknown revision: 'r9'"));
    // Any revision goes with SP 800-171A.
    assert!(parse_nist_document_key("sp800-171a", "r2").is_ok());
    assert_eq!(
        parse_far_document_key("52.204-21", "v2").ok(),
        Some(DocumentKey::far(FarDocument::Far52_204_21, DocumentRevision::V2))
    );
    assert_eq!(bad_request(parse_far_document_key("52.204-21", "r1")), FAR_REVISION_MESSAGE);
    assert_eq!(bad_request(parse_far_document_key("52.204-21", "v1")), FAR_REVISION_MESSAGE);
    assert!(parse_far_document_key("52.204.21", "2.0").is_ok());
    assert_eq!(bad_request(parse_far_document_key("52.204-21", "r3")), FAR_REVISION_MESSAGE);
    assert!(bad_request(parse_far_document_key("52.999", "v2")).starts_with("Unknown FAR document"));
}

#[test]
fn element_query_defaults_and_caps() {
    let q = ElementQuery { element_type: None, search: None, limit: None, offset: None };
    assert_eq!(q.limit(), 100);
    assert_eq!(q.offset(), 0);
    assert_eq!(q.parse_element_type(), None);
    let q = ElementQuery {
        element_type: Some("Security_Requirement".to_string()),
        search: None,
        limit: Some(10_000),
        offset: Some(7),
    };
    assert_eq!(q.limit(), 5000);
    assert_eq!(q.offset(), 7);
    assert_eq!(q.parse_element_type(), Some(ElementType::SecurityRequirement));
    let q = ElementQuery { element_type: Some("unknown".to_string()), search: None, limit: Some(3), offset: None };
    assert_eq!(q.limit(), 3);
    assert_eq!(q.parse_element_type(), None);
}

#[test]
fn element_kinds_have_slugs_and_positions() {
    assert_eq!(ElementType::SecurityRequirement.slug(), "security_requirement");
    assert_eq!(ElementType::OdpStatement.slug(), "odp_statement");
    assert_eq!(ElementType::Family.ordinal(), 0);
    assert_eq!(ElementType::Unknown.ordinal(), 22);
}

#[test]
fn errors_map_to_status_codes() {
    assert_eq!(CoreError::NotFound("x".to_string()).status(), 404);
    assert_eq!(CoreError::BadRequest("y".to_string()).status(), 400);
    let ni = CoreError::NotImplemented {
        message: "use /elements".to_string(),
        hint: vec![("elements".to_string(), "/v1/nist/sp800-171/r3/elements".to_string())],
    };
    assert_eq!(ni.status(), 501);
    assert_eq!(ni.message(), "use /elements");
    assert_eq!(CoreError::NotFound("gone".to_string()).message(), "gone");
}

#[test]
fn content_negotiation() {
    assert!(wants_toon(Some("text/toon")));
    assert!(wants_toon(Some("application/json, text/toon;q=0.9")));
    assert!(!wants_toon(Some("application/json")));
    assert!(!wants_toon(None));
    let (data, toon) = FormatResponse::with_format(vec![1, 2], true).into_parts();
    assert_eq!(data, vec![1, 2]);
    assert!(toon);
    assert!(!FormatResponse::json(3).into_parts().1);
    assert!(FormatResponse::toon(3).into_parts().1);
}

#[test]
fn canonical_names_parse_back_in_any_case() {
    for d in [NistDocument::Sp800171, NistDocument::Sp800171A, NistDocument::Sp800172, NistDocument::Sp800172A] {
        assert_eq!(d.as_str().parse::<NistDocument>(), Ok(d));
        assert_eq!(d.as_str().to_uppercase().parse::<NistDocument>(), Ok(d));
        assert_eq!(d.to_string(), d.as_str());
    }
    for r in [DocumentRevision::Rev1, DocumentRevision::Rev2, DocumentRevision::Rev3, DocumentRevision::V1, DocumentRevision::V2] {
        assert_eq!(DocumentRevision::parse(r.as_str()), Ok(r));
        assert_eq!(DocumentRevision::parse(&r.as_str().to_uppercase()), Ok(r));
        assert_eq!(r.to_string(), r.as_str());
    }
    assert_eq!(FarDocument::Far52_204_21.to_string(), "52.204-21");
}
