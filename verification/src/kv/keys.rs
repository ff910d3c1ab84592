//! Key builders for the published key-value layout, and the paging manifest.

use vstd::prelude::*;

use crate::model::{document_name_of, revision_name, revision_of, DocumentKey};
use crate::text::{decimal, push_decimal};

verus! {

/// Version of the key layout; keys are immutable per version.
pub const KV_VERSION: &'static str = "1";

/// Number of elements per stored page.
pub const ELEMENTS_PER_PAGE: usize = 100;

/// Upper bound on how many search results are hydrated per request.
pub const SEARCH_PAGE_SIZE: usize = 50;

/// Cache lifetime applied to every read, in seconds.
pub const KV_CACHE_TTL_SECS: u64 = 86_400;

/// Table of contents of a paged collection.
#[derive(Debug, Clone)]
pub struct PageManifest {
    pub total: usize,
    pub page_size: usize,
    pub page_count: usize,
}

/// `t:{version}:{document}:{revision}`.
pub open spec fn doc_prefix_spec(key: DocumentKey) -> Seq<char> {
    "t:"@ + KV_VERSION@ + ":"@ + document_name_of(key) + ":"@ + revision_name(revision_of(key))
}

fn doc_prefix(key: DocumentKey) -> (s: String)
    ensures
        s@ == doc_prefix_spec(key),
{
    let mut s = "t:".to_owned();
    s.append(KV_VERSION);
    s.append(":");
    let d = key.document_string();
    s.append(d.as_str());
    s.append(":");
    let r = key.revision_string();
    s.append(r.as_str());
    s
}

/// Builds `prefix(key) + a`.
fn keyed(key: DocumentKey, a: &str) -> (s: String)
    ensures
        s@ == doc_prefix_spec(key) + a@,
{
    let mut s = doc_prefix(key);
    s.append(a);
    s
}

/// Builds `prefix(key) + a + b`.
fn keyed2(key: DocumentKey, a: &str, b: &str) -> (s: String)
    ensures
        s@ == doc_prefix_spec(key) + a@ + b@,
{
    let mut s = keyed(key, a);
    s.append(b);
    s
}

/// `t:{v}:index` — the list of available documents.
pub fn index() -> (s: String)
    ensures
        s@ == "t:"@ + KV_VERSION@ + ":index"@,
{
    let mut s = "t:".to_owned();
    s.append(KV_VERSION);
    s.append(":index");
    s
}

/// `t:{v}:{doc}:{rev}:summary`
pub fn summary(key: DocumentKey) -> (s: String)
    ensures
        s@ == doc_prefix_spec(key) + ":summary"@,
{
    keyed(key, ":summary")
}

/// `t:{v}:{doc}:{rev}:families`
pub fn families(key: DocumentKey) -> (s: String)
    ensures
        s@ == doc_prefix_spec(key) + ":families"@,
{
    keyed(key, ":families")
}

/// `t:{v}:{doc}:{rev}:family:{id}`
pub fn family(key: DocumentKey, id: &str) -> (s: String)
    ensures
        s@ == doc_prefix_spec(key) + ":family:"@ + id@,
{
    keyed2(key, ":family:", id)
}

/// `t:{v}:{doc}:{rev}:el:{id}`
pub fn element(key: DocumentKey, id: &str) -> (s: String)
    ensures
        s@ == doc_prefix_spec(key) + ":el:"@ + id@,
{
    keyed2(key, ":el:", id)
}

/// `t:{v}:{doc}:{rev}:el:{id}:rels`
pub fn element_rels(key: DocumentKey, id: &str) -> (s: String)
    ensures
        s@ == doc_prefix_spec(key) + ":el:"@ + id@ + ":rels"@,
{
    let mut s = keyed2(key, ":el:", id);
    s.append(":rels");
    s
}

/// `t:{v}:{doc}:{rev}:requirements`
pub fn requirements(key: DocumentKey) -> (s: String)
    ensures
        s@ == doc_prefix_spec(key) + ":requirements"@,
{
    keyed(key, ":requirements")
}

/// `t:{v}:{doc}:{rev}:secreq`
pub fn secreq(key: DocumentKey) -> (s: String)
    ensures
        s@ == doc_prefix_spec(key) + ":secreq"@,
{
    keyed(key, ":secreq")
}

/// `t:{v}:{doc}:{rev}:rels`
pub fn relationships(key: DocumentKey) -> (s: String)
    ensures
        s@ == doc_prefix_spec(key) + ":rels"@,
{
    keyed(key, ":rels")
}

/// `t:{v}:{doc}:{rev}:elements:{bucket}:manifest`
pub fn elements_manifest(key: DocumentKey, bucket: &str) -> (s: String)
    ensures
        s@ == doc_prefix_spec(key) + ":elements:"@ + bucket@ + ":manifest"@,
{
    let mut s = keyed2(key, ":elements:", bucket);
    s.append(":manifest");
    s
}

/// `t:{v}:{doc}:{rev}:elements:{bucket}:p{n}`
pub fn elements_page(key: DocumentKey, bucket: &str, n: usize) -> (s: String)
    ensures
        s@ == doc_prefix_spec(key) + ":elements:"@ + bucket@ + ":p"@ + decimal(n as nat),
{
    let mut s = keyed2(key, ":elements:", bucket);
    s.append(":p");
    push_decimal(&mut s, n);
    s
}

/// `t:{v}:{doc}:{rev}:ids:{bucket}` — identifiers of the elements of a kind.
pub fn ids(key: DocumentKey, bucket: &str) -> (s: String)
    ensures
        s@ == doc_prefix_spec(key) + ":ids:"@ + bucket@,
{
    keyed2(key, ":ids:", bucket)
}

/// `t:{v}:{doc}:{rev}:idx:tok:{token}` — identifiers of the elements with a word.
pub fn token(key: DocumentKey, tok: &str) -> (s: String)
    ensures
        s@ == doc_prefix_spec(key) + ":idx:tok:"@ + tok@,
{
    keyed2(key, ":idx:tok:", tok)
}

} // verus!
