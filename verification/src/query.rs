//! Request parameters: document/revision path segments and element queries.

use vstd::prelude::*;

use crate::error::CoreError;
use crate::model::{
    far_document_from_lower, nist_document_from_lower, revision_from_lower,
    unknown_far_document_message, unknown_nist_document_message, unknown_revision_message,
    type_slug, DocumentKey, DocumentRevision, ElementType, FarDocument, NistDocument,
};
use crate::text::{str_eq, to_lowercase, unicode_lowercase};

verus! {

/// Refusal for an SP 800-171 key with a version.
pub const SP800_171_VERSION_MESSAGE: &'static str = "SP 800-171 uses revisions, not versions. Use r1, r2, or r3 (e.g. /sp800-171/r3).";
/// Refusal for an SP 800-172 key with a revision.
pub const SP800_172_REVISION_MESSAGE: &'static str = "SP 800-172 uses versions, not revisions. Use v1 (e.g. /sp800-172/v1).";
/// Refusal for an SP 800-172A key with a revision.
pub const SP800_172A_REVISION_MESSAGE: &'static str = "SP 800-172A uses versions, not revisions. Use v1 (e.g. /sp800-172a/v1).";
/// Refusal for a FAR key with any revision but `v2`.
pub const FAR_REVISION_MESSAGE: &'static str = "FAR 52.204-21 uses v2 (e.g. /far/52.204-21/v2).";

/// Why a NIST document cannot take a revision, if it cannot.
pub open spec fn nist_revision_mismatch(d: NistDocument, r: DocumentRevision) -> Option<Seq<char>> {
    match d {
        NistDocument::Sp800171 => if r == DocumentRevision::V1 || r == DocumentRevision::V2 {
            Some(SP800_171_VERSION_MESSAGE@)
        } else {
            None
        },
        NistDocument::Sp800172 => if r == DocumentRevision::Rev1 || r == DocumentRevision::Rev2
            || r == DocumentRevision::Rev3 {
            Some(SP800_172_REVISION_MESSAGE@)
        } else {
            None
        },
        NistDocument::Sp800172A => if r == DocumentRevision::Rev1 || r == DocumentRevision::Rev2
            || r == DocumentRevision::Rev3 {
            Some(SP800_172A_REVISION_MESSAGE@)
        } else {
            None
        },
        NistDocument::Sp800171A => None,
    }
}

/// Why the FAR document cannot take a revision, if it cannot.
pub open spec fn far_revision_mismatch(d: FarDocument, r: DocumentRevision) -> Option<Seq<char>> {
    if r == DocumentRevision::V2 {
        None
    } else {
        Some(FAR_REVISION_MESSAGE@)
    }
}

/// The key that NIST path segments denote, or the bad-request message.
pub open spec fn nist_key_outcome(document: Seq<char>, revision: Seq<char>) -> Result<DocumentKey, Seq<char>> {
    match nist_document_from_lower(unicode_lowercase(document)) {
        None => Err(unknown_nist_document_message(document)),
        Some(d) => match revision_from_lower(unicode_lowercase(revision)) {
            None => Err(unknown_revision_message(revision)),
            Some(r) => match nist_revision_mismatch(d, r) {
                Some(m) => Err(m),
                None => Ok(DocumentKey::Nist { document: d, revision: r }),
            },
        },
    }
}

/// The key that FAR path segments denote, or the bad-request message.
pub open spec fn far_key_outcome(document: Seq<char>, revision: Seq<char>) -> Result<DocumentKey, Seq<char>> {
    match far_document_from_lower(unicode_lowercase(document)) {
        None => Err(unknown_far_document_message(document)),
        Some(d) => match revision_from_lower(unicode_lowercase(revision)) {
            None => Err(unknown_revision_message(revision)),
            Some(r) => match far_revision_mismatch(d, r) {
                Some(m) => Err(m),
                None => Ok(DocumentKey::Far { document: d, revision: r }),
            },
        },
    }
}

/// The outcome is the spec outcome, an error being a bad request.
pub open spec fn key_result_matches(r: Result<DocumentKey, CoreError>, o: Result<DocumentKey, Seq<char>>) -> bool {
    match (r, o) {
        (Ok(k), Ok(k2)) => k == k2,
        (Err(CoreError::BadRequest(m)), Err(m2)) => m@ == m2,
        _ => false,
    }
}

/// Combines a parsed NIST document and revision into a key, refusing the
/// combinations that do not exist.
pub fn nist_key_from_parts(doc: NistDocument, rev: DocumentRevision) -> (r: Result<DocumentKey, CoreError>)
    ensures
        match nist_revision_mismatch(doc, rev) {
            Some(m) => r matches Err(CoreError::BadRequest(e)) && e@ == m,
            None => r == Ok::<DocumentKey, CoreError>(DocumentKey::Nist { document: doc, revision: rev }),
        },
{
    match (doc, rev) {
        (NistDocument::Sp800171, DocumentRevision::V1) | (NistDocument::Sp800171, DocumentRevision::V2) => {
            Err(CoreError::BadRequest(SP800_171_VERSION_MESSAGE.to_owned()))
        },
        (NistDocument::Sp800172, DocumentRevision::Rev1)
        | (NistDocument::Sp800172, DocumentRevision::Rev2)
        | (NistDocument::Sp800172, DocumentRevision::Rev3) => {
            Err(CoreError::BadRequest(SP800_172_REVISION_MESSAGE.to_owned()))
        },
        (NistDocument::Sp800172A, DocumentRevision::Rev1)
        | (NistDocument::Sp800172A, DocumentRevision::Rev2)
        | (NistDocument::Sp800172A, DocumentRevision::Rev3) => {
            Err(CoreError::BadRequest(SP800_172A_REVISION_MESSAGE.to_owned()))
        },
        _ => Ok(DocumentKey::nist(doc, rev)),
    }
}

/// Combines a parsed FAR document and revision into a key, refusing the
/// revisions that do not exist.
pub fn far_key_from_parts(doc: FarDocument, rev: DocumentRevision) -> (r: Result<DocumentKey, CoreError>)
    ensures
        match far_revision_mismatch(doc, rev) {
            Some(m) => r matches Err(CoreError::BadRequest(e)) && e@ == m,
            None => r == Ok::<DocumentKey, CoreError>(DocumentKey::Far { document: doc, revision: rev }),
        },
{
    match rev {
        DocumentRevision::V2 => Ok(DocumentKey::far(doc, rev)),
        _ => Err(CoreError::BadRequest(FAR_REVISION_MESSAGE.to_owned())),
    }
}

/// Parse NIST document and revision path segments into a key.
pub fn parse_nist_document_key(document: &str, revision: &str) -> (r: Result<DocumentKey, CoreError>)
    ensures
        key_result_matches(r, nist_key_outcome(document@, revision@)),
{
    let doc = match NistDocument::parse(document) {
        Ok(d) => d,
        Err(e) => return Err(CoreError::BadRequest(e)),
    };
    let rev = match DocumentRevision::parse(revision) {
        Ok(r) => r,
        Err(e) => return Err(CoreError::BadRequest(e)),
    };
    nist_key_from_parts(doc, rev)
}

/// Parse FAR document and revision path segments into a key.
pub fn parse_far_document_key(document: &str, revision: &str) -> (r: Result<DocumentKey, CoreError>)
    ensures
        key_result_matches(r, far_key_outcome(document@, revision@)),
{
    let doc = match FarDocument::parse(document) {
        Ok(d) => d,
        Err(e) => return Err(CoreError::BadRequest(e)),
    };
    let rev = match DocumentRevision::parse(revision) {
        Ok(r) => r,
        Err(e) => return Err(CoreError::BadRequest(e)),
    };
    far_key_from_parts(doc, rev)
}

/// The kind an already-lowercased `type` parameter names (any kind but
/// `Unknown`, by its snake_case name).
pub open spec fn element_type_from_lower(s: Seq<char>) -> Option<ElementType> {
    if s == "family"@ { Some(ElementType::Family) }
    else if s == "requirement"@ { Some(ElementType::Requirement) }
    else if s == "security_requirement"@ { Some(ElementType::SecurityRequirement) }
    else if s == "discussion"@ { Some(ElementType::Discussion) }
    else if s == "assessment"@ { Some(ElementType::Assessment) }
    else if s == "adversary_effect"@ { Some(ElementType::AdversaryEffect) }
    else if s == "protection_strategy"@ { Some(ElementType::ProtectionStrategy) }
    else if s == "effect"@ { Some(ElementType::Effect) }
    else if s == "tactic"@ { Some(ElementType::Tactic) }
    else if s == "impact"@ { Some(ElementType::Impact) }
    else if s == "expected_result"@ { Some(ElementType::ExpectedResult) }
    else if s == "example"@ { Some(ElementType::Example) }
    else if s == "determination"@ { Some(ElementType::Determination) }
    else if s == "examine"@ { Some(ElementType::Examine) }
    else if s == "interview"@ { Some(ElementType::Interview) }
    else if s == "test"@ { Some(ElementType::Test) }
    else if s == "odp"@ { Some(ElementType::Odp) }
    else if s == "odp_statement"@ { Some(ElementType::OdpStatement) }
    else if s == "odp_type"@ { Some(ElementType::OdpType) }
    else if s == "sort"@ { Some(ElementType::Sort) }
    else if s == "reference_item"@ { Some(ElementType::ReferenceItem) }
    else if s == "withdraw_reason"@ { Some(ElementType::WithdrawReason) }
    else { None }
}

/// The kind an already-lowercased `type` parameter names.
pub fn element_type_from_lowercase(s: &str) -> (r: Option<ElementType>)
    ensures
        r == element_type_from_lower(s@),
{
    if str_eq(s, "family") { Some(ElementType::Family) }
    else if str_eq(s, "requirement") { Some(ElementType::Requirement) }
    else if str_eq(s, "security_requirement") { Some(ElementType::SecurityRequirement) }
    else if str_eq(s, "discussion") { Some(ElementType::Discussion) }
    else if str_eq(s, "assessment") { Some(ElementType::Assessment) }
    else if str_eq(s, "adversary_effect") { Some(ElementType::AdversaryEffect) }
    else if str_eq(s, "protection_strategy") { Some(ElementType::ProtectionStrategy) }
    else if str_eq(s, "effect") { Some(ElementType::Effect) }
    else if str_eq(s, "tactic") { Some(ElementType::Tactic) }
    else if str_eq(s, "impact") { Some(ElementType::Impact) }
    else if str_eq(s, "expected_result") { Some(ElementType::ExpectedResult) }
    else if str_eq(s, "example") { Some(ElementType::Example) }
    else if str_eq(s, "determination") { Some(ElementType::Determination) }
    else if str_eq(s, "examine") { Some(ElementType::Examine) }
    else if str_eq(s, "interview") { Some(ElementType::Interview) }
    else if str_eq(s, "test") { Some(ElementType::Test) }
    else if str_eq(s, "odp") { Some(ElementType::Odp) }
    else if str_eq(s, "odp_statement") { Some(ElementType::OdpStatement) }
    else if str_eq(s, "odp_type") { Some(ElementType::OdpType) }
    else if str_eq(s, "sort") { Some(ElementType::Sort) }
    else if str_eq(s, "reference_item") { Some(ElementType::ReferenceItem) }
    else if str_eq(s, "withdraw_reason") { Some(ElementType::WithdrawReason) }
    else { None }
}

/// The slugs that name kinds are pairwise distinguishable by their length,
/// first character and fifth character; these facts let the solver tell any
/// two of them apart.
proof fn lemma_slug_facts()
    ensures
        "family"@.len() == 6 && "family"@[0] == 'f' && "family"@[4] == 'l',
        "requirement"@.len() == 11 && "requirement"@[0] == 'r' && "requirement"@[4] == 'i',
        "security_requirement"@.len() == 20 && "security_requirement"@[0] == 's' && "security_requirement"@[4] == 'r',
        "discussion"@.len() == 10 && "discussion"@[0] == 'd' && "discussion"@[4] == 'u',
        "assessment"@.len() == 10 && "assessment"@[0] == 'a' && "assessment"@[4] == 's',
        "adversary_effect"@.len() == 16 && "adversary_effect"@[0] == 'a' && "adversary_effect"@[4] == 'r',
        "protection_strategy"@.len() == 19 && "protection_strategy"@[0] == 'p' && "protection_strategy"@[4] == 'e',
        "effect"@.len() == 6 && "effect"@[0] == 'e' && "effect"@[4] == 'c',
        "tactic"@.len() == 6 && "tactic"@[0] == 't' && "tactic"@[4] == 'i',
        "impact"@.len() == 6 && "impact"@[0] == 'i' && "impact"@[4] == 'c',
        "expected_result"@.len() == 15 && "expected_result"@[0] == 'e' && "expected_result"@[4] == 'c',
        "example"@.len() == 7 && "example"@[0] == 'e' && "example"@[4] == 'p',
        "determination"@.len() == 13 && "determination"@[0] == 'd' && "determination"@[4] == 'r',
        "examine"@.len() == 7 && "examine"@[0] == 'e' && "examine"@[4] == 'i',
        "interview"@.len() == 9 && "interview"@[0] == 'i' && "interview"@[4] == 'r',
        "test"@.len() == 4 && "test"@[0] == 't',
        "odp"@.len() == 3 && "odp"@[0] == 'o',
        "odp_statement"@.len() == 13 && "odp_statement"@[0] == 'o' && "odp_statement"@[4] == 's',
        "odp_type"@.len() == 8 && "odp_type"@[0] == 'o' && "odp_type"@[4] == 't',
        "sort"@.len() == 4 && "sort"@[0] == 's',
        "reference_item"@.len() == 14 && "reference_item"@[0] == 'r' && "reference_item"@[4] == 'r',
        "withdraw_reason"@.len() == 15 && "withdraw_reason"@[0] == 'w' && "withdraw_reason"@[4] == 'd',
{
    reveal_strlit("family");
    reveal_strlit("requirement");
    reveal_strlit("security_requirement");
    reveal_strlit("discussion");
    reveal_strlit("assessment");
    reveal_strlit("adversary_effect");
    reveal_strlit("protection_strategy");
    reveal_strlit("effect");
    reveal_strlit("tactic");
    reveal_strlit("impact");
    reveal_strlit("expected_result");
    reveal_strlit("example");
    reveal_strlit("determination");
    reveal_strlit("examine");
    reveal_strlit("interview");
    reveal_strlit("test");
    reveal_strlit("odp");
    reveal_strlit("odp_statement");
    reveal_strlit("odp_type");
    reveal_strlit("sort");
    reveal_strlit("reference_item");
    reveal_strlit("withdraw_reason");
}

/// Each type word names the kind whose slug it is: parsing the slug of any
/// kind but `Unknown` gives that kind back, and a word that parses to a kind
/// is exactly that kind's slug (so no word names `Unknown`, and no two kinds
/// share a word).
pub proof fn lemma_element_type_slug_round_trip(t: ElementType, s: Seq<char>)
    ensures
        t != ElementType::Unknown ==> element_type_from_lower(type_slug(t)) == Some(t),
        element_type_from_lower(s) == Some(t) ==> s == type_slug(t) && t != ElementType::Unknown,
{
    lemma_slug_facts();
}

/// Default page size.
pub const DEFAULT_LIMIT: usize = 100;
/// Largest page size.
pub const MAX_LIMIT: usize = 5000;

/// Query parameters for filtering elements, with pagination.
#[derive(Debug, Clone)]
pub struct ElementQuery {
    /// Filter by element type.
    pub element_type: Option<String>,
    /// Search in identifier, title or text.
    pub search: Option<String>,
    /// Maximum number of results (default 100, at most 5000).
    pub limit: Option<usize>,
    /// Offset for pagination (default 0).
    pub offset: Option<usize>,
}

/// The page size a query asks for.
pub open spec fn query_limit(q: ElementQuery) -> usize {
    let l = match q.limit {
        Some(l) => l,
        None => DEFAULT_LIMIT,
    };
    if l < MAX_LIMIT { l } else { MAX_LIMIT }
}

/// The offset a query asks for.
pub open spec fn query_offset(q: ElementQuery) -> usize {
    match q.offset {
        Some(o) => o,
        None => 0,
    }
}

/// The kind filter a query asks for.
pub open spec fn query_type(q: ElementQuery) -> Option<ElementType> {
    match q.element_type {
        Some(t) => element_type_from_lower(unicode_lowercase(t@)),
        None => None,
    }
}

impl ElementQuery {
    /// Page size: the requested limit, 100 by default, at most 5000.
    pub fn limit(&self) -> (l: usize)
        ensures
            l == query_limit(*self),
    {
        let l = match self.limit {
            Some(l) => l,
            None => DEFAULT_LIMIT,
        };
        if l < MAX_LIMIT { l } else { MAX_LIMIT }
    }

    /// Offset: the requested offset, 0 by default.
    pub fn offset(&self) -> (o: usize)
        ensures
            o == query_offset(*self),
    {
        match self.offset {
            Some(o) => o,
            None => 0,
        }
    }

    /// The element kind the `type` parameter names, compared case-insensitively.
    pub fn parse_element_type(&self) -> (r: Option<ElementType>)
        ensures
            r == query_type(*self),
    {
        match &self.element_type {
            Some(t) => {
                let lower = to_lowercase(t.as_str());
                element_type_from_lowercase(lower.as_str())
            },
            None => None,
        }
    }
}

} // verus!
