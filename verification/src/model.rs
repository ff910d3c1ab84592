//! Core data model of the NIST CPRT export: documents, revisions, element
//! kinds, elements and relationships.

use vstd::prelude::*;

use crate::text::{ascii_lowercase, ascii_uppercase, concat2, is_ascii_seq, lemma_lowercase_word, str_eq, to_lowercase, unicode_lowercase};

verus! {

// ---------------------------------------------------------------------------
// Raw CPRT export structure
// ---------------------------------------------------------------------------

/// Root structure of a NIST CPRT JSON export.
#[derive(Debug, Clone)]
pub struct NistData {
    pub response: NistResponse,
}

/// The `response` object of the export.
#[derive(Debug, Clone)]
pub struct NistResponse {
    pub request_type: i32,
    pub elements: NistElements,
}

/// Everything the export lists: documents, relationship kinds, elements and relationships.
#[derive(Debug, Clone)]
pub struct NistElements {
    pub documents: Vec<Document>,
    pub relationship_types: Vec<RelationshipType>,
    pub elements: Vec<Element>,
    pub relationships: Vec<Relationship>,
}

/// Document metadata.
#[derive(Debug, Clone)]
pub struct Document {
    pub doc_identifier: String,
    pub name: String,
    pub version: String,
    pub website: String,
}

/// Abstract value of a [`Document`].
pub struct DocumentView {
    pub doc_identifier: Seq<char>,
    pub name: Seq<char>,
    pub version: Seq<char>,
    pub website: Seq<char>,
}

impl View for Document {
    type V = DocumentView;

    open spec fn view(&self) -> DocumentView {
        DocumentView {
            doc_identifier: self.doc_identifier@,
            name: self.name@,
            version: self.version@,
            website: self.website@,
        }
    }
}

impl Document {
    /// A document record with every field empty.
    pub fn empty() -> (d: Document)
        ensures
            d@ == (DocumentView {
                doc_identifier: Seq::empty(),
                name: Seq::empty(),
                version: Seq::empty(),
                website: Seq::empty(),
            }),
    {
        let d = Document {
            doc_identifier: String::new(),
            name: String::new(),
            version: String::new(),
            website: String::new(),
        };
        assert(d@.doc_identifier =~= Seq::<char>::empty());
        assert(d@.name =~= Seq::<char>::empty());
        assert(d@.version =~= Seq::<char>::empty());
        assert(d@.website =~= Seq::<char>::empty());
        d
    }

    /// A field-by-field copy.
    pub fn duplicate(&self) -> (d: Document)
        ensures
            d@ == self@,
    {
        Document {
            doc_identifier: self.doc_identifier.clone(),
            name: self.name.clone(),
            version: self.version.clone(),
            website: self.website.clone(),
        }
    }
}

/// Relationship kind definition.
#[derive(Debug, Clone)]
pub struct RelationshipType {
    pub relationship_identifier: String,
    pub description: String,
}

// ---------------------------------------------------------------------------
// Document keys
// ---------------------------------------------------------------------------

/// Document source type.
#[derive(Debug, Clone, Copy, PartialEq, Eq, Hash, Structural)]
pub enum DocumentSource {
    Nist,
    Far,
}

/// NIST document family.
#[derive(Debug, Clone, Copy, PartialEq, Eq, Hash, Structural)]
pub enum NistDocument {
    Sp800171,
    Sp800171A,
    Sp800172,
    Sp800172A,
}

/// FAR (Federal Acquisition Regulation) document.
#[derive(Debug, Clone, Copy, PartialEq, Eq, Hash, Structural)]
pub enum FarDocument {
    Far52_204_21,
}

/// Document revision or version.
#[derive(Debug, Clone, Copy, PartialEq, Eq, Hash, Structural)]
pub enum DocumentRevision {
    Rev1,
    Rev2,
    Rev3,
    V1,
    V2,
}

/// Canonical name of a NIST document.
pub open spec fn nist_document_name(d: NistDocument) -> Seq<char> {
    match d {
        NistDocument::Sp800171 => "sp800-171"@,
        NistDocument::Sp800171A => "sp800-171a"@,
        NistDocument::Sp800172 => "sp800-172"@,
        NistDocument::Sp800172A => "sp800-172a"@,
    }
}

/// Canonical name of a FAR document.
pub open spec fn far_document_name(d: FarDocument) -> Seq<char> {
    match d {
        FarDocument::Far52_204_21 => "52.204-21"@,
    }
}

/// Canonical name of a revision.
pub open spec fn revision_name(r: DocumentRevision) -> Seq<char> {
    match r {
        DocumentRevision::Rev1 => "r1"@,
        DocumentRevision::Rev2 => "r2"@,
        DocumentRevision::Rev3 => "r3"@,
        DocumentRevision::V1 => "v1"@,
        DocumentRevision::V2 => "v2"@,
    }
}

/// The NIST document an already-lowercased name denotes, accepting the
/// aliases `800-171`, `171` and so on.
pub open spec fn nist_document_from_lower(s: Seq<char>) -> Option<NistDocument> {
    if s == "sp800-171"@ || s == "800-171"@ || s == "171"@ {
        Some(NistDocument::Sp800171)
    } else if s == "sp800-171a"@ || s == "800-171a"@ || s == "171a"@ {
        Some(NistDocument::Sp800171A)
    } else if s == "sp800-172"@ || s == "800-172"@ || s == "172"@ {
        Some(NistDocument::Sp800172)
    } else if s == "sp800-172a"@ || s == "800-172a"@ || s == "172a"@ {
        Some(NistDocument::Sp800172A)
    } else {
        None
    }
}

/// The FAR document an already-lowercased name denotes.
pub open spec fn far_document_from_lower(s: Seq<char>) -> Option<FarDocument> {
    if s == "52.204-21"@ || s == "52.204.21"@ || s == "52-204-21"@ {
        Some(FarDocument::Far52_204_21)
    } else {
        None
    }
}

/// The revision an already-lowercased name denotes.
pub open spec fn revision_from_lower(s: Seq<char>) -> Option<DocumentRevision> {
    if s == "r1"@ || s == "rev1"@ || s == "1"@ {
        Some(DocumentRevision::Rev1)
    } else if s == "r2"@ || s == "rev2"@ || s == "2"@ {
        Some(DocumentRevision::Rev2)
    } else if s == "r3"@ || s == "rev3"@ || s == "3"@ {
        Some(DocumentRevision::Rev3)
    } else if s == "v1"@ || s == "1.0"@ {
        Some(DocumentRevision::V1)
    } else if s == "v2"@ || s == "2.0"@ {
        Some(DocumentRevision::V2)
    } else {
        None
    }
}

/// Error text for an unrecognised NIST document name `s`.
pub open spec fn unknown_nist_document_message(s: Seq<char>) -> Seq<char> {
    "Unknown NIST document: '"@ + s
        + "'. Use 'sp800-171', 'sp800-171a', 'sp800-172', or 'sp800-172a'."@
}

/// Error text for an unrecognised FAR document name `s`.
pub open spec fn unknown_far_document_message(s: Seq<char>) -> Seq<char> {
    "Unknown FAR document: '"@ + s + "'. Use '52.204-21'."@
}

/// Error text for an unrecognised revision name `s`.
pub open spec fn unknown_revision_message(s: Seq<char>) -> Seq<char> {
    "Unknown revision: '"@ + s + "'. Use 'r1', 'r2', 'r3', 'v1', or 'v2'."@
}

/// Builds `left + s + right`.
fn quote_between(left: &str, s: &str, right: &str) -> (r: String)
    ensures
        r@ == left@ + s@ + right@,
{
    let mut r = concat2(left, s);
    r.append(right);
    r
}

/// Two sequences that differ at a position are different.
proof fn lemma_differ_at(a: Seq<char>, b: Seq<char>, i: int)
    requires
        0 <= i < a.len(),
        i < b.len(),
        a[i] != b[i],
    ensures
        a != b,
{
}

/// Sequences of different lengths are different.
proof fn lemma_len_differ(a: Seq<char>, b: Seq<char>)
    requires
        a.len() != b.len(),
    ensures
        a != b,
{
}

proof fn lemma_nist_name(x: NistDocument)
    ensures
        nist_document_from_lower(nist_document_name(x)) == Some(x),
{
    reveal_strlit("171");
    reveal_strlit("171a");
    reveal_strlit("172");
    reveal_strlit("172a");
    reveal_strlit("800-171");
    reveal_strlit("800-171a");
    reveal_strlit("800-172");
    reveal_strlit("800-172a");
    reveal_strlit("sp800-171");
    reveal_strlit("sp800-171a");
    reveal_strlit("sp800-172");
    reveal_strlit("sp800-172a");
    match x {
        NistDocument::Sp800171 => {
        },
        NistDocument::Sp800171A => {
            lemma_len_differ("sp800-171a"@, "sp800-171"@);
            lemma_len_differ("sp800-171a"@, "800-171"@);
            lemma_len_differ("sp800-171a"@, "171"@);
        },
        NistDocument::Sp800172 => {
            lemma_differ_at("sp800-172"@, "sp800-171"@, 8);
            lemma_len_differ("sp800-172"@, "800-171"@);
            lemma_len_differ("sp800-172"@, "171"@);
            lemma_len_differ("sp800-172"@, "sp800-171a"@);
            lemma_len_differ("sp800-172"@, "800-171a"@);
            lemma_len_differ("sp800-172"@, "171a"@);
        },
        NistDocument::Sp800172A => {
            lemma_len_differ("sp800-172a"@, "sp800-171"@);
            lemma_len_differ("sp800-172a"@, "800-171"@);
            lemma_len_differ("sp800-172a"@, "171"@);
            lemma_differ_at("sp800-172a"@, "sp800-171a"@, 8);
            lemma_len_differ("sp800-172a"@, "800-171a"@);
            lemma_len_differ("sp800-172a"@, "171a"@);
            lemma_len_differ("sp800-172a"@, "sp800-172"@);
            lemma_len_differ("sp800-172a"@, "800-172"@);
            lemma_len_differ("sp800-172a"@, "172"@);
        },
    }
}

proof fn lemma_revision_name(x: DocumentRevision)
    ensures
        revision_from_lower(revision_name(x)) == Some(x),
{
    reveal_strlit("1");
    reveal_strlit("1.0");
    reveal_strlit("2");
    reveal_strlit("2.0");
    reveal_strlit("3");
    reveal_strlit("r1");
    reveal_strlit("r2");
    reveal_strlit("r3");
    reveal_strlit("rev1");
    reveal_strlit("rev2");
    reveal_strlit("rev3");
    reveal_strlit("v1");
    reveal_strlit("v2");
    match x {
        DocumentRevision::Rev1 => {
        },
        DocumentRevision::Rev2 => {
            lemma_differ_at("r2"@, "r1"@, 1);
            lemma_len_differ("r2"@, "rev1"@);
            lemma_len_differ("r2"@, "1"@);
        },
        DocumentRevision::Rev3 => {
            lemma_differ_at("r3"@, "r1"@, 1);
            lemma_len_differ("r3"@, "rev1"@);
            lemma_len_differ("r3"@, "1"@);
            lemma_differ_at("r3"@, "r2"@, 1);
            lemma_len_differ("r3"@, "rev2"@);
            lemma_len_differ("r3"@, "2"@);
        },
        DocumentRevision::V1 => {
            lemma_differ_at("v1"@, "r1"@, 0);
            lemma_len_differ("v1"@, "rev1"@);
            lemma_len_differ("v1"@, "1"@);
            lemma_differ_at("v1"@, "r2"@, 0);
            lemma_len_differ("v1"@, "rev2"@);
            lemma_len_differ("v1"@, "2"@);
            lemma_differ_at("v1"@, "r3"@, 0);
            lemma_len_differ("v1"@, "rev3"@);
            lemma_len_differ("v1"@, "3"@);
        },
        DocumentRevision::V2 => {
            lemma_differ_at("v2"@, "r1"@, 0);
            lemma_len_differ("v2"@, "rev1"@);
            lemma_len_differ("v2"@, "1"@);
            lemma_differ_at("v2"@, "r2"@, 0);
            lemma_len_differ("v2"@, "rev2"@);
            lemma_len_differ("v2"@, "2"@);
            lemma_differ_at("v2"@, "r3"@, 0);
            lemma_len_differ("v2"@, "rev3"@);
            lemma_len_differ("v2"@, "3"@);
            lemma_differ_at("v2"@, "v1"@, 1);
            lemma_len_differ("v2"@, "1.0"@);
        },
    }
}

/// Each document and revision is recognized by its canonical name.
pub proof fn lemma_canonical_names(d: NistDocument, f: FarDocument, r: DocumentRevision)
    ensures
        nist_document_from_lower(nist_document_name(d)) == Some(d),
        far_document_from_lower(far_document_name(f)) == Some(f),
        revision_from_lower(revision_name(r)) == Some(r),
{
    lemma_nist_name(d);
    lemma_revision_name(r);
}

/// The canonical names are ASCII without uppercase letters: each is its own
/// lowercase form, and its uppercase form lowercases back to it.
proof fn lemma_name_word(n: Seq<char>)
    requires
        forall|i: int| 0 <= i < n.len() ==> (#[trigger] n[i] as u32) < 128 && !('A' <= n[i] && n[i] <= 'Z'),
    ensures
        is_ascii_seq(n),
        ascii_lowercase(n) == n,
        is_ascii_seq(ascii_uppercase(n)),
        ascii_lowercase(ascii_uppercase(n)) == n,
{
    lemma_lowercase_word(n);
}

/// Each canonical document and revision name, and its uppercase form, is
/// ASCII text whose lowercase form is the name, so `parse` gives back the
/// document or revision it names.
pub proof fn lemma_canonical_names_ascii(d: NistDocument, f: FarDocument, r: DocumentRevision)
    ensures
        is_ascii_seq(nist_document_name(d)),
        ascii_lowercase(nist_document_name(d)) == nist_document_name(d),
        is_ascii_seq(ascii_uppercase(nist_document_name(d))),
        ascii_lowercase(ascii_uppercase(nist_document_name(d))) == nist_document_name(d),
        is_ascii_seq(far_document_name(f)),
        ascii_lowercase(far_document_name(f)) == far_document_name(f),
        is_ascii_seq(ascii_uppercase(far_document_name(f))),
        ascii_lowercase(ascii_uppercase(far_document_name(f))) == far_document_name(f),
        is_ascii_seq(revision_name(r)),
        ascii_lowercase(revision_name(r)) == revision_name(r),
        is_ascii_seq(ascii_uppercase(revision_name(r))),
        ascii_lowercase(ascii_uppercase(revision_name(r))) == revision_name(r),
{
    reveal_strlit("sp800-171");
    reveal_strlit("sp800-171a");
    reveal_strlit("sp800-172");
    reveal_strlit("sp800-172a");
    reveal_strlit("52.204-21");
    reveal_strlit("r1");
    reveal_strlit("r2");
    reveal_strlit("r3");
    reveal_strlit("v1");
    reveal_strlit("v2");
    lemma_name_word(nist_document_name(d));
    lemma_name_word(far_document_name(f));
    lemma_name_word(revision_name(r));
}

impl NistDocument {
    /// The canonical name as a `String` (its display form).
    pub fn to_string(&self) -> (s: String)
        ensures
            s@ == nist_document_name(*self),
    {
        self.as_str().to_owned()
    }

    /// Canonical name, e.g. `sp800-171`.
    pub fn as_str(&self) -> (s: &'static str)
        ensures
            s@ == nist_document_name(*self),
    {
        match self {
            NistDocument::Sp800171 => "sp800-171",
            NistDocument::Sp800171A => "sp800-171a",
            NistDocument::Sp800172 => "sp800-172",
            NistDocument::Sp800172A => "sp800-172a",
        }
    }

    /// The document an already-lowercased name denotes.
    pub fn from_lowercase(s: &str) -> (r: Option<NistDocument>)
        ensures
            r == nist_document_from_lower(s@),
    {
        if str_eq(s, "sp800-171") || str_eq(s, "800-171") || str_eq(s, "171") {
            Some(NistDocument::Sp800171)
        } else if str_eq(s, "sp800-171a") || str_eq(s, "800-171a") || str_eq(s, "171a") {
            Some(NistDocument::Sp800171A)
        } else if str_eq(s, "sp800-172") || str_eq(s, "800-172") || str_eq(s, "172") {
            Some(NistDocument::Sp800172)
        } else if str_eq(s, "sp800-172a") || str_eq(s, "800-172a") || str_eq(s, "172a") {
            Some(NistDocument::Sp800172A)
        } else {
            None
        }
    }

    /// Parses a document name case-insensitively (`FromStr`).
    pub fn parse(s: &str) -> (r: Result<NistDocument, String>)
        ensures
            match r {
                Ok(d) => nist_document_from_lower(unicode_lowercase(s@)) == Some(d),
                Err(e) => nist_document_from_lower(unicode_lowercase(s@)) is None
                    && e@ == unknown_nist_document_message(s@),
            },
            forall|d: NistDocument|
                is_ascii_seq(s@) && ascii_lowercase(s@) == #[trigger] nist_document_name(d) ==> r == Ok::<NistDocument, String>(d),
    {
        let lower = to_lowercase(s);
        proof {
            assert forall|d: NistDocument| is_ascii_seq(s@) && ascii_lowercase(s@) == #[trigger] nist_document_name(d) implies nist_document_from_lower(
                lower@,
            ) == Some(d) by {
                lemma_nist_name(d);
            }
        }
        match NistDocument::from_lowercase(lower.as_str()) {
            Some(d) => Ok(d),
            None => Err(quote_between(
                "Unknown NIST document: '",
                s,
                "'. Use 'sp800-171', 'sp800-171a', 'sp800-172', or 'sp800-172a'.",
            )),
        }
    }
}

impl std::str::FromStr for NistDocument {
    type Err = String;

    fn from_str(s: &str) -> (r: Result<NistDocument, String>)
        ensures
            match r {
                Ok(d) => nist_document_from_lower(unicode_lowercase(s@)) == Some(d),
                Err(e) => nist_document_from_lower(unicode_lowercase(s@)) is None
                    && e@ == unknown_nist_document_message(s@),
            },
            forall|d: NistDocument|
                is_ascii_seq(s@) && ascii_lowercase(s@) == #[trigger] nist_document_name(d) ==> r == Ok::<NistDocument, String>(d),
    {
        NistDocument::parse(s)
    }
}

impl FarDocument {
    /// The canonical name as a `String` (its display form).
    pub fn to_string(&self) -> (s: String)
        ensures
            s@ == far_document_name(*self),
    {
        self.as_str().to_owned()
    }

    /// Canonical name, `52.204-21`.
    pub fn as_str(&self) -> (s: &'static str)
        ensures
            s@ == far_document_name(*self),
    {
        match self {
            FarDocument::Far52_204_21 => "52.204-21",
        }
    }

    /// The document an already-lowercased name denotes.
    pub fn from_lowercase(s: &str) -> (r: Option<FarDocument>)
        ensures
            r == far_document_from_lower(s@),
    {
        if str_eq(s, "52.204-21") || str_eq(s, "52.204.21") || str_eq(s, "52-204-21") {
            Some(FarDocument::Far52_204_21)
        } else {
            None
        }
    }

    /// Parses a document name case-insensitively (`FromStr`).
    pub fn parse(s: &str) -> (r: Result<FarDocument, String>)
        ensures
            match r {
                Ok(d) => far_document_from_lower(unicode_lowercase(s@)) == Some(d),
                Err(e) => far_document_from_lower(unicode_lowercase(s@)) is None
                    && e@ == unknown_far_document_message(s@),
            },
            forall|d: FarDocument|
                is_ascii_seq(s@) && ascii_lowercase(s@) == #[trigger] far_document_name(d) ==> r == Ok::<FarDocument, String>(d),
    {
        let lower = to_lowercase(s);
        proof {
            assert forall|d: FarDocument| is_ascii_seq(s@) && ascii_lowercase(s@) == #[trigger] far_document_name(d) implies far_document_from_lower(
                lower@,
            ) == Some(d) by {
                assert(d == FarDocument::Far52_204_21);
            }
        }
        match FarDocument::from_lowercase(lower.as_str()) {
            Some(d) => Ok(d),
            None => Err(quote_between("Unknown FAR document: '", s, "'. Use '52.204-21'.")),
        }
    }
}

impl std::str::FromStr for FarDocument {
    type Err = String;

    fn from_str(s: &str) -> (r: Result<FarDocument, String>)
        ensures
            match r {
                Ok(d) => far_document_from_lower(unicode_lowercase(s@)) == Some(d),
                Err(e) => far_document_from_lower(unicode_lowercase(s@)) is None
                    && e@ == unknown_far_document_message(s@),
            },
            forall|d: FarDocument|
                is_ascii_seq(s@) && ascii_lowercase(s@) == #[trigger] far_document_name(d) ==> r == Ok::<FarDocument, String>(d),
    {
        FarDocument::parse(s)
    }
}

impl DocumentRevision {
    /// The canonical name as a `String` (its display form).
    pub fn to_string(&self) -> (s: String)
        ensures
            s@ == revision_name(*self),
    {
        self.as_str().to_owned()
    }

    /// Canonical name, e.g. `r3`.
    pub fn as_str(&self) -> (s: &'static str)
        ensures
            s@ == revision_name(*self),
    {
        match self {
            DocumentRevision::Rev1 => "r1",
            DocumentRevision::Rev2 => "r2",
            DocumentRevision::Rev3 => "r3",
            DocumentRevision::V1 => "v1",
            DocumentRevision::V2 => "v2",
        }
    }

    /// The revision an already-lowercased name denotes.
    pub fn from_lowercase(s: &str) -> (r: Option<DocumentRevision>)
        ensures
            r == revision_from_lower(s@),
    {
        if str_eq(s, "r1") || str_eq(s, "rev1") || str_eq(s, "1") {
            Some(DocumentRevision::Rev1)
        } else if str_eq(s, "r2") || str_eq(s, "rev2") || str_eq(s, "2") {
            Some(DocumentRevision::Rev2)
        } else if str_eq(s, "r3") || str_eq(s, "rev3") || str_eq(s, "3") {
            Some(DocumentRevision::Rev3)
        } else if str_eq(s, "v1") || str_eq(s, "1.0") {
            Some(DocumentRevision::V1)
        } else if str_eq(s, "v2") || str_eq(s, "2.0") {
            Some(DocumentRevision::V2)
        } else {
            None
        }
    }

    /// Parses a revision name case-insensitively (`FromStr`).
    pub fn parse(s: &str) -> (r: Result<DocumentRevision, String>)
        ensures
            match r {
                Ok(d) => revision_from_lower(unicode_lowercase(s@)) == Some(d),
                Err(e) => revision_from_lower(unicode_lowercase(s@)) is None
                    && e@ == unknown_revision_message(s@),
            },
            forall|d: DocumentRevision|
                is_ascii_seq(s@) && ascii_lowercase(s@) == #[trigger] revision_name(d) ==> r == Ok::<DocumentRevision, String>(d),
    {
        let lower = to_lowercase(s);
        proof {
            assert forall|d: DocumentRevision| is_ascii_seq(s@) && ascii_lowercase(s@) == #[trigger] revision_name(d) implies revision_from_lower(
                lower@,
            ) == Some(d) by {
                lemma_revision_name(d);
            }
        }
        match DocumentRevision::from_lowercase(lower.as_str()) {
            Some(d) => Ok(d),
            None => Err(quote_between(
                "Unknown revision: '",
                s,
                "'. Use 'r1', 'r2', 'r3', 'v1', or 'v2'.",
            )),
        }
    }
}

impl std::str::FromStr for DocumentRevision {
    type Err = String;

    fn from_str(s: &str) -> (r: Result<DocumentRevision, String>)
        ensures
            match r {
                Ok(d) => revision_from_lower(unicode_lowercase(s@)) == Some(d),
                Err(e) => revision_from_lower(unicode_lowercase(s@)) is None
                    && e@ == unknown_revision_message(s@),
            },
            forall|d: DocumentRevision|
                is_ascii_seq(s@) && ascii_lowercase(s@) == #[trigger] revision_name(d) ==> r == Ok::<DocumentRevision, String>(d),
    {
        DocumentRevision::parse(s)
    }
}

/// Unified document key for all document types.
#[derive(Debug, Clone, Copy, PartialEq, Eq, Hash, Structural)]
pub enum DocumentKey {
    Nist { document: NistDocument, revision: DocumentRevision },
    Far { document: FarDocument, revision: DocumentRevision },
}

/// The CPRT framework version identifier of a key.
pub open spec fn cprt_identifier_of(k: DocumentKey) -> Seq<char> {
    match k {
        DocumentKey::Nist { document, revision } => {
            if document == NistDocument::Sp800171 && revision == DocumentRevision::Rev1 {
                "sp_800_171_1_0_0"@
            } else if document == NistDocument::Sp800171 && revision == DocumentRevision::Rev2 {
                "sp_800_171_2_0_0"@
            } else if document == NistDocument::Sp800171 && revision == DocumentRevision::Rev3 {
                "sp_800_171_3_0_0"@
            } else if document == NistDocument::Sp800171A && revision == DocumentRevision::V1 {
                "sp_800_171a_1_0_0"@
            } else if document == NistDocument::Sp800171A && revision == DocumentRevision::Rev3 {
                "sp_800_171_a_3_0_0"@
            } else if document == NistDocument::Sp800172 && revision == DocumentRevision::V1 {
                "sp_800_172_1_0_0"@
            } else if document == NistDocument::Sp800172A && revision == DocumentRevision::V1 {
                "sp_800_172a_1_0_0"@
            } else {
                "unknown"@
            }
        },
        DocumentKey::Far { document, revision } => {
            if revision == DocumentRevision::V2 {
                "far_52_204_21"@
            } else {
                "unknown"@
            }
        },
    }
}

/// Human-readable name of a key.
pub open spec fn display_name_of(k: DocumentKey) -> Seq<char> {
    match k {
        DocumentKey::Nist { document, revision } => {
            if document == NistDocument::Sp800171 && revision == DocumentRevision::Rev1 {
                "SP 800-171 Rev 1"@
            } else if document == NistDocument::Sp800171 && revision == DocumentRevision::Rev2 {
                "SP 800-171 Rev 2"@
            } else if document == NistDocument::Sp800171 && revision == DocumentRevision::Rev3 {
                "SP 800-171 Rev 3"@
            } else if document == NistDocument::Sp800171A && revision == DocumentRevision::V1 {
                "SP 800-171A v1.0"@
            } else if document == NistDocument::Sp800171A && revision == DocumentRevision::Rev3 {
                "SP 800-171A Rev 3"@
            } else if document == NistDocument::Sp800172 && revision == DocumentRevision::V1 {
                "SP 800-172 v1.0"@
            } else if document == NistDocument::Sp800172A && revision == DocumentRevision::V1 {
                "SP 800-172A v1.0"@
            } else {
                nist_document_name(document) + " "@ + revision_name(revision)
            }
        },
        DocumentKey::Far { document, revision } => {
            if revision == DocumentRevision::V2 {
                "FAR 52.204-21"@
            } else {
                "FAR "@ + far_document_name(document) + " "@ + revision_name(revision)
            }
        },
    }
}

/// The document part of a key as text.
pub open spec fn document_name_of(k: DocumentKey) -> Seq<char> {
    match k {
        DocumentKey::Nist { document, .. } => nist_document_name(document),
        DocumentKey::Far { document, .. } => far_document_name(document),
    }
}

/// The revision part of a key.
pub open spec fn revision_of(k: DocumentKey) -> DocumentRevision {
    match k {
        DocumentKey::Nist { revision, .. } => revision,
        DocumentKey::Far { revision, .. } => revision,
    }
}

/// The `document/revision` text of a key (its `Display` form).
pub open spec fn key_text(k: DocumentKey) -> Seq<char> {
    document_name_of(k) + "/"@ + revision_name(revision_of(k))
}

impl DocumentKey {
    /// A NIST key.
    pub fn nist(document: NistDocument, revision: DocumentRevision) -> (k: Self)
        ensures
            k == (DocumentKey::Nist { document, revision }),
    {
        DocumentKey::Nist { document, revision }
    }

    /// A FAR key.
    pub fn far(document: FarDocument, revision: DocumentRevision) -> (k: Self)
        ensures
            k == (DocumentKey::Far { document, revision }),
    {
        DocumentKey::Far { document, revision }
    }

    /// The CPRT framework version identifier.
    pub fn cprt_identifier(&self) -> (s: &'static str)
        ensures
            s@ == cprt_identifier_of(*self),
    {
        match self {
            DocumentKey::Nist { document, revision } => match (document, revision) {
                (NistDocument::Sp800171, DocumentRevision::Rev1) => "sp_800_171_1_0_0",
                (NistDocument::Sp800171, DocumentRevision::Rev2) => "sp_800_171_2_0_0",
                (NistDocument::Sp800171, DocumentRevision::Rev3) => "sp_800_171_3_0_0",
                (NistDocument::Sp800171A, DocumentRevision::V1) => "sp_800_171a_1_0_0",
                (NistDocument::Sp800171A, DocumentRevision::Rev3) => "sp_800_171_a_3_0_0",
                (NistDocument::Sp800172, DocumentRevision::V1) => "sp_800_172_1_0_0",
                (NistDocument::Sp800172A, DocumentRevision::V1) => "sp_800_172a_1_0_0",
                _ => "unknown",
            },
            DocumentKey::Far { document, revision } => match (document, revision) {
                (FarDocument::Far52_204_21, DocumentRevision::V2) => "far_52_204_21",
                _ => "unknown",
            },
        }
    }

    /// Human-readable name for the document.
    pub fn display_name(&self) -> (s: String)
        ensures
            s@ == display_name_of(*self),
    {
        match self {
            DocumentKey::Nist { document, revision } => match (document, revision) {
                (NistDocument::Sp800171, DocumentRevision::Rev1) => "SP 800-171 Rev 1".to_owned(),
                (NistDocument::Sp800171, DocumentRevision::Rev2) => "SP 800-171 Rev 2".to_owned(),
                (NistDocument::Sp800171, DocumentRevision::Rev3) => "SP 800-171 Rev 3".to_owned(),
                (NistDocument::Sp800171A, DocumentRevision::V1) => "SP 800-171A v1.0".to_owned(),
                (NistDocument::Sp800171A, DocumentRevision::Rev3) => "SP 800-171A Rev 3".to_owned(),
                (NistDocument::Sp800172, DocumentRevision::V1) => "SP 800-172 v1.0".to_owned(),
                (NistDocument::Sp800172A, DocumentRevision::V1) => "SP 800-172A v1.0".to_owned(),
                _ => quote_between(document.as_str(), " ", revision.as_str()),
            },
            DocumentKey::Far { document, revision } => match (document, revision) {
                (FarDocument::Far52_204_21, DocumentRevision::V2) => "FAR 52.204-21".to_owned(),
                _ => {
                    let mut s = concat2("FAR ", document.as_str());
                    s.append(" ");
                    s.append(revision.as_str());
                    s
                },
            },
        }
    }

    /// Whether the key names a NIST or a FAR document.
    pub fn source(&self) -> (s: DocumentSource)
        ensures
            s == (match *self {
                DocumentKey::Nist { .. } => DocumentSource::Nist,
                DocumentKey::Far { .. } => DocumentSource::Far,
            }),
    {
        match self {
            DocumentKey::Nist { .. } => DocumentSource::Nist,
            DocumentKey::Far { .. } => DocumentSource::Far,
        }
    }

    /// The document part as text.
    pub fn document_string(&self) -> (s: String)
        ensures
            s@ == document_name_of(*self),
    {
        match self {
            DocumentKey::Nist { document, .. } => document.as_str().to_owned(),
            DocumentKey::Far { document, .. } => document.as_str().to_owned(),
        }
    }

    /// The revision part as text.
    pub fn revision_string(&self) -> (s: String)
        ensures
            s@ == revision_name(revision_of(*self)),
    {
        match self {
            DocumentKey::Nist { revision, .. } => revision.as_str().to_owned(),
            DocumentKey::Far { revision, .. } => revision.as_str().to_owned(),
        }
    }

    /// The `document/revision` text of the key (its display form).
    pub fn to_string(&self) -> (s: String)
        ensures
            s@ == key_text(*self),
    {
        let d = self.document_string();
        let r = self.revision_string();
        quote_between(d.as_str(), "/", r.as_str())
    }
}

// ---------------------------------------------------------------------------
// Elements and relationships
// ---------------------------------------------------------------------------

/// Element types in the NIST data.
#[derive(Debug, Clone, Copy, PartialEq, Eq, Hash, Structural)]
pub enum ElementType {
    Family,
    Requirement,
    SecurityRequirement,
    Discussion,
    Assessment,
    AdversaryEffect,
    ProtectionStrategy,
    Effect,
    Tactic,
    Impact,
    ExpectedResult,
    Example,
    Sort,
    ReferenceItem,
    Determination,
    Examine,
    Interview,
    Test,
    Odp,
    OdpStatement,
    OdpType,
    WithdrawReason,
    Unknown,
}

/// Number of element kinds.
pub const ELEMENT_TYPE_COUNT: usize = 23;

/// Position of a kind in declaration order.
pub open spec fn type_ordinal(t: ElementType) -> nat {
    match t {
        ElementType::Family => 0,
        ElementType::Requirement => 1,
        ElementType::SecurityRequirement => 2,
        ElementType::Discussion => 3,
        ElementType::Assessment => 4,
        ElementType::AdversaryEffect => 5,
        ElementType::ProtectionStrategy => 6,
        ElementType::Effect => 7,
        ElementType::Tactic => 8,
        ElementType::Impact => 9,
        ElementType::ExpectedResult => 10,
        ElementType::Example => 11,
        ElementType::Sort => 12,
        ElementType::ReferenceItem => 13,
        ElementType::Determination => 14,
        ElementType::Examine => 15,
        ElementType::Interview => 16,
        ElementType::Test => 17,
        ElementType::Odp => 18,
        ElementType::OdpStatement => 19,
        ElementType::OdpType => 20,
        ElementType::WithdrawReason => 21,
        ElementType::Unknown => 22,
    }
}

/// The snake_case name of a kind, as the CPRT export spells it.
pub open spec fn type_slug(t: ElementType) -> Seq<char> {
    match t {
        ElementType::Family => "family"@,
        ElementType::Requirement => "requirement"@,
        ElementType::SecurityRequirement => "security_requirement"@,
        ElementType::Discussion => "discussion"@,
        ElementType::Assessment => "assessment"@,
        ElementType::AdversaryEffect => "adversary_effect"@,
        ElementType::ProtectionStrategy => "protection_strategy"@,
        ElementType::Effect => "effect"@,
        ElementType::Tactic => "tactic"@,
        ElementType::Impact => "impact"@,
        ElementType::ExpectedResult => "expected_result"@,
        ElementType::Example => "example"@,
        ElementType::Sort => "sort"@,
        ElementType::ReferenceItem => "reference_item"@,
        ElementType::Determination => "determination"@,
        ElementType::Examine => "examine"@,
        ElementType::Interview => "interview"@,
        ElementType::Test => "test"@,
        ElementType::Odp => "odp"@,
        ElementType::OdpStatement => "odp_statement"@,
        ElementType::OdpType => "odp_type"@,
        ElementType::WithdrawReason => "withdraw_reason"@,
        ElementType::Unknown => "unknown"@,
    }
}

impl ElementType {
    /// Position of the kind in declaration order.
    pub fn ordinal(&self) -> (n: usize)
        ensures
            n as nat == type_ordinal(*self),
            n < ELEMENT_TYPE_COUNT,
    {
        match self {
            ElementType::Family => 0,
            ElementType::Requirement => 1,
            ElementType::SecurityRequirement => 2,
            ElementType::Discussion => 3,
            ElementType::Assessment => 4,
            ElementType::AdversaryEffect => 5,
            ElementType::ProtectionStrategy => 6,
            ElementType::Effect => 7,
            ElementType::Tactic => 8,
            ElementType::Impact => 9,
            ElementType::ExpectedResult => 10,
            ElementType::Example => 11,
            ElementType::Sort => 12,
            ElementType::ReferenceItem => 13,
            ElementType::Determination => 14,
            ElementType::Examine => 15,
            ElementType::Interview => 16,
            ElementType::Test => 17,
            ElementType::Odp => 18,
            ElementType::OdpStatement => 19,
            ElementType::OdpType => 20,
            ElementType::WithdrawReason => 21,
            ElementType::Unknown => 22,
        }
    }

    /// The snake_case name of the kind.
    pub fn slug(&self) -> (s: &'static str)
        ensures
            s@ == type_slug(*self),
    {
        match self {
            ElementType::Family => "family",
            ElementType::Requirement => "requirement",
            ElementType::SecurityRequirement => "security_requirement",
            ElementType::Discussion => "discussion",
            ElementType::Assessment => "assessment",
            ElementType::AdversaryEffect => "adversary_effect",
            ElementType::ProtectionStrategy => "protection_strategy",
            ElementType::Effect => "effect",
            ElementType::Tactic => "tactic",
            ElementType::Impact => "impact",
            ElementType::ExpectedResult => "expected_result",
            ElementType::Example => "example",
            ElementType::Sort => "sort",
            ElementType::ReferenceItem => "reference_item",
            ElementType::Determination => "determination",
            ElementType::Examine => "examine",
            ElementType::Interview => "interview",
            ElementType::Test => "test",
            ElementType::Odp => "odp",
            ElementType::OdpStatement => "odp_statement",
            ElementType::OdpType => "odp_type",
            ElementType::WithdrawReason => "withdraw_reason",
            ElementType::Unknown => "unknown",
        }
    }
}

/// A single element (family, requirement, security requirement, ...).
#[derive(Debug, Clone)]
pub struct Element {
    pub element_type: ElementType,
    pub element_identifier: String,
    pub title: String,
    pub text: String,
    pub doc_identifier: String,
}

/// Abstract value of an [`Element`].
pub struct ElementView {
    pub element_type: ElementType,
    pub element_identifier: Seq<char>,
    pub title: Seq<char>,
    pub text: Seq<char>,
    pub doc_identifier: Seq<char>,
}

impl View for Element {
    type V = ElementView;

    open spec fn view(&self) -> ElementView {
        ElementView {
            element_type: self.element_type,
            element_identifier: self.element_identifier@,
            title: self.title@,
            text: self.text@,
            doc_identifier: self.doc_identifier@,
        }
    }
}

impl Element {
    /// A field-by-field copy.
    pub fn duplicate(&self) -> (e: Element)
        ensures
            e@ == self@,
    {
        Element {
            element_type: self.element_type,
            element_identifier: self.element_identifier.clone(),
            title: self.title.clone(),
            text: self.text.clone(),
            doc_identifier: self.doc_identifier.clone(),
        }
    }
}

/// Relationship between two elements.
#[derive(Debug, Clone)]
pub struct Relationship {
    pub source_element_identifier: String,
    pub source_doc_identifier: String,
    pub dest_element_identifier: String,
    pub dest_doc_identifier: String,
    pub relationship_identifier: String,
    pub provenance_doc_identifier: String,
}

/// Abstract value of a [`Relationship`].
pub struct RelationshipView {
    pub source_element_identifier: Seq<char>,
    pub source_doc_identifier: Seq<char>,
    pub dest_element_identifier: Seq<char>,
    pub dest_doc_identifier: Seq<char>,
    pub relationship_identifier: Seq<char>,
    pub provenance_doc_identifier: Seq<char>,
}

impl View for Relationship {
    type V = RelationshipView;

    open spec fn view(&self) -> RelationshipView {
        RelationshipView {
            source_element_identifier: self.source_element_identifier@,
            source_doc_identifier: self.source_doc_identifier@,
            dest_element_identifier: self.dest_element_identifier@,
            dest_doc_identifier: self.dest_doc_identifier@,
            relationship_identifier: self.relationship_identifier@,
            provenance_doc_identifier: self.provenance_doc_identifier@,
        }
    }
}

impl Relationship {
    /// A field-by-field copy.
    pub fn duplicate(&self) -> (r: Relationship)
        ensures
            r@ == self@,
    {
        Relationship {
            source_element_identifier: self.source_element_identifier.clone(),
            source_doc_identifier: self.source_doc_identifier.clone(),
            dest_element_identifier: self.dest_element_identifier.clone(),
            dest_doc_identifier: self.dest_doc_identifier.clone(),
            relationship_identifier: self.relationship_identifier.clone(),
            provenance_doc_identifier: self.provenance_doc_identifier.clone(),
        }
    }
}

} // verus!
