//! The published key-value layout of a document: which keys are written and
//! what each one holds. Serialising the values and writing the bulk files is
//! left to the caller.

use vstd::prelude::*;

use crate::assemble::elements_view;
use crate::kv::keys::{self, doc_prefix_spec, PageManifest, ELEMENTS_PER_PAGE, KV_VERSION};
use crate::model::{Document, DocumentKey, DocumentView, Element, ElementView, NistData, RelationshipView, Relationship};
use crate::response::{
    DataSummary, Family, FamilyView, Requirement, RequirementView, SecurityRequirement,
    SecurityRequirementView, families_view, requirements_view, security_requirements_view,
};
use crate::service::{DocumentInfo, DocumentInfoView, infos_view, relationships_view};
use crate::order::strings_view;
use crate::text::decimal;
use crate::document::{indexes, DocumentContext};
use crate::index::{add_tokens, entry_of, last_with_identifier, type_at_ordinal, type_from_ordinal, EntryView, SearchIndex};
use crate::model::{type_slug, ElementType, ELEMENT_TYPE_COUNT};
use crate::poam::PoamValidator;
use crate::scoring::{ScoreTable, ScoringDatabase};
use crate::service::{
    element_outcome, element_relationships, elements_at, families, families_over, relationships, relationships_touching,
    requirements, requirements_over, security_requirements, security_requirements_over, summary, type_list,
};

verus! {

/// A value stored under one key.
#[derive(Debug, Clone)]
pub enum KvValue {
    Documents(Vec<DocumentInfo>),
    Summary(DataSummary),
    Families(Vec<Family>),
    Family(Family),
    Requirements(Vec<Requirement>),
    SecurityRequirements(Vec<SecurityRequirement>),
    Relationships(Vec<Relationship>),
    Element(Element),
    Manifest(PageManifest),
    Elements(Vec<Element>),
    Identifiers(Vec<String>),
}

/// Abstract value of a [`KvValue`].
pub enum KvValueView {
    Documents(Seq<DocumentInfoView>),
    Summary(DocumentView, usize, usize, usize, usize),
    Families(Seq<FamilyView>),
    Family(FamilyView),
    Requirements(Seq<RequirementView>),
    SecurityRequirements(Seq<SecurityRequirementView>),
    Relationships(Seq<RelationshipView>),
    Element(ElementView),
    Manifest(usize, usize, usize),
    Elements(Seq<ElementView>),
    Identifiers(Seq<Seq<char>>),
}

impl View for KvValue {
    type V = KvValueView;

    open spec fn view(&self) -> KvValueView {
        match self {
            KvValue::Documents(v) => KvValueView::Documents(infos_view(v@)),
            KvValue::Summary(s) => KvValueView::Summary(
                s.document@,
                s.family_count,
                s.requirement_count,
                s.security_requirement_count,
                s.relationship_count,
            ),
            KvValue::Families(v) => KvValueView::Families(families_view(v@)),
            KvValue::Family(f) => KvValueView::Family(f@),
            KvValue::Requirements(v) => KvValueView::Requirements(requirements_view(v@)),
            KvValue::SecurityRequirements(v) => KvValueView::SecurityRequirements(security_requirements_view(v@)),
            KvValue::Relationships(v) => KvValueView::Relationships(relationships_view(v@)),
            KvValue::Element(e) => KvValueView::Element(e@),
            KvValue::Manifest(m) => KvValueView::Manifest(m.total, m.page_size, m.page_count),
            KvValue::Elements(v) => KvValueView::Elements(elements_view(v@)),
            KvValue::Identifiers(v) => KvValueView::Identifiers(strings_view(v@)),
        }
    }
}

/// One key and the value stored under it.
#[derive(Debug, Clone)]
pub struct BulkPair {
    pub key: String,
    pub value: KvValue,
}

/// A key and a value, as abstract values.
pub type PairView = (Seq<char>, KvValueView);

/// The abstract values of a list of pairs.
pub open spec fn pairs_view(v: Seq<BulkPair>) -> Seq<PairView> {
    v.map_values(|p: BulkPair| (p.key@, p.value@))
}

/// Appends a pair.
fn push_pair(pairs: &mut Vec<BulkPair>, key: String, value: KvValue)
    ensures
        pairs_view(final(pairs)@) == pairs_view(old(pairs)@).push((key@, value@)),
{
    pairs.push(BulkPair { key, value });
    assert(pairs_view(pairs@) =~= pairs_view(old(pairs)@).push((key@, value@)));
}

// ---------------------------------------------------------------------------
// Pages
// ---------------------------------------------------------------------------

/// Number of pages that `total` items fill.
pub open spec fn page_count_of(total: nat) -> nat {
    if total % (ELEMENTS_PER_PAGE as nat) == 0 {
        total / (ELEMENTS_PER_PAGE as nat)
    } else {
        total / (ELEMENTS_PER_PAGE as nat) + 1
    }
}

/// The items on page `p`.
pub open spec fn page_items(items: Seq<ElementView>, p: int) -> Seq<ElementView> {
    let start = p * ELEMENTS_PER_PAGE;
    let end = if start + ELEMENTS_PER_PAGE <= items.len() { start + ELEMENTS_PER_PAGE } else { items.len() as int };
    items.subrange(start, end)
}

/// The key of page `p` of a bucket.
pub open spec fn page_key(key: DocumentKey, bucket: Seq<char>, p: nat) -> Seq<char> {
    doc_prefix_spec(key) + ":elements:"@ + bucket + ":p"@ + decimal(p)
}

/// The manifest of a bucket, then each of its pages in order.
pub open spec fn pages_seg(key: DocumentKey, bucket: Seq<char>, items: Seq<ElementView>) -> Seq<PairView> {
    let count = page_count_of(items.len());
    seq![(
        doc_prefix_spec(key) + ":elements:"@ + bucket + ":manifest"@,
        KvValueView::Manifest(items.len() as usize, ELEMENTS_PER_PAGE, count as usize),
    )] + Seq::new(count, |p: int| (page_key(key, bucket, p as nat), KvValueView::Elements(page_items(items, p))))
}

/// Facts about the bounds of page `p`.
proof fn lemma_page_bounds(n: nat, p: nat)
    requires
        p < page_count_of(n),
    ensures
        p * ELEMENTS_PER_PAGE < n,
        p * ELEMENTS_PER_PAGE + ELEMENTS_PER_PAGE <= n + ELEMENTS_PER_PAGE,
{
    let q = n / (ELEMENTS_PER_PAGE as nat);
    let r = n % (ELEMENTS_PER_PAGE as nat);
    assert(n == q * 100 + r && r < 100);
    assert(p <= q);
    if p == q {
        assert(r != 0);
        assert(p * 100 == q * 100);
    } else {
        assert(p * 100 <= (q - 1) * 100) by (nonlinear_arith)
            requires
                p <= q - 1,
        ;
    }
}

/// Writes the manifest of a bucket, then its items in pages of
/// `ELEMENTS_PER_PAGE`.
pub fn write_pages(pairs: &mut Vec<BulkPair>, key: DocumentKey, bucket: &str, items: &[Element])
    ensures
        pairs_view(final(pairs)@) == pairs_view(old(pairs)@) + pages_seg(key, bucket@, elements_view(items@)),
{
    let ghost base = pairs_view(pairs@);
    let ghost iv = elements_view(items@);
    let n = items.len();
    let page_count = if n % ELEMENTS_PER_PAGE == 0 {
        n / ELEMENTS_PER_PAGE
    } else {
        n / ELEMENTS_PER_PAGE + 1
    };
    assert(page_count == page_count_of(n as nat));
    let manifest = PageManifest { total: n, page_size: ELEMENTS_PER_PAGE, page_count };
    push_pair(pairs, keys::elements_manifest(key, bucket), KvValue::Manifest(manifest));
    let ghost head = seq![(
        doc_prefix_spec(key) + ":elements:"@ + bucket@ + ":manifest"@,
        KvValueView::Manifest(n, ELEMENTS_PER_PAGE, page_count),
    )];
    assert(pairs_view(pairs@) =~= base + head);
    for p in 0..page_count
        invariant
            n == items@.len(),
            iv == elements_view(items@),
            page_count == page_count_of(n as nat),
            pairs_view(pairs@) == base + head + Seq::new(
                p as nat,
                |q: int| (page_key(key, bucket@, q as nat), KvValueView::Elements(page_items(iv, q))),
            ),
    {
        proof {
            lemma_page_bounds(n as nat, p as nat);
        }
        let start = p * ELEMENTS_PER_PAGE;
        let end = if n - start >= ELEMENTS_PER_PAGE { start + ELEMENTS_PER_PAGE } else { n };
        let mut page: Vec<Element> = Vec::new();
        for j in start..end
            invariant
                start <= end <= n,
                n == items@.len(),
                iv == elements_view(items@),
                elements_view(page@) == iv.subrange(start as int, j as int),
        {
            let ghost before = elements_view(page@);
            page.push(items[j].duplicate());
            assert(elements_view(page@) =~= before.push(iv[j as int]));
            assert(iv.subrange(start as int, j + 1) =~= iv.subrange(start as int, j as int).push(iv[j as int]));
        }
        assert(elements_view(page@) == page_items(iv, p as int));
        push_pair(pairs, keys::elements_page(key, bucket, p), KvValue::Elements(page));
        assert(Seq::new(
            (p + 1) as nat,
            |q: int| (page_key(key, bucket@, q as nat), KvValueView::Elements(page_items(iv, q))),
        ) =~= Seq::new(
            p as nat,
            |q: int| (page_key(key, bucket@, q as nat), KvValueView::Elements(page_items(iv, q))),
        ).push((page_key(key, bucket@, p as nat), KvValueView::Elements(page_items(iv, p as int)))));
    }
    assert(pairs_view(pairs@) =~= base + pages_seg(key, bucket@, iv));
}

// ---------------------------------------------------------------------------
// Per-document layout
// ---------------------------------------------------------------------------

/// What the index records of each element, in order.
pub open spec fn entries_of(es: Seq<ElementView>) -> Seq<EntryView> {
    Seq::new(es.len(), |i: int| entry_of(es[i]))
}

/// The stored summary of a document.
pub open spec fn summary_view(e: Seq<EntryView>, rs: Seq<RelationshipView>, docs: Seq<DocumentView>) -> KvValueView {
    KvValueView::Summary(
        if docs.len() > 0 {
            docs[0]
        } else {
            DocumentView { doc_identifier: Seq::empty(), name: Seq::empty(), version: Seq::empty(), website: Seq::empty() }
        },
        type_list(e, ElementType::Family).len() as usize,
        type_list(e, ElementType::Requirement).len() as usize,
        type_list(e, ElementType::SecurityRequirement).len() as usize,
        rs.len() as usize,
    )
}

/// One pair per family, keyed by its identifier.
pub open spec fn family_pairs(key: DocumentKey, fs: Seq<FamilyView>) -> Seq<PairView> {
    fs.map_values(|f: FamilyView| (doc_prefix_spec(key) + ":family:"@ + f.identifier, KvValueView::Family(f)))
}

/// For each of the first `n` positions that holds the last element with its
/// identifier: the element, then the relationships touching it.
pub open spec fn element_pairs(
    key: DocumentKey,
    e: Seq<EntryView>,
    es: Seq<ElementView>,
    rs: Seq<RelationshipView>,
    n: nat,
) -> Seq<PairView>
    decreases n,
{
    if n == 0 {
        Seq::empty()
    } else {
        let prev = element_pairs(key, e, es, rs, (n - 1) as nat);
        let id = es[n - 1].element_identifier;
        if last_with_identifier(e, id) == Some((n - 1) as nat) {
            prev + seq![
                (doc_prefix_spec(key) + ":el:"@ + id, KvValueView::Element(es[n - 1])),
                (doc_prefix_spec(key) + ":el:"@ + id + ":rels"@, KvValueView::Relationships(relationships_touching(rs, id))),
            ]
        } else {
            prev
        }
    }
}

/// The identifiers of a list of elements.
pub open spec fn identifiers_of(es: Seq<ElementView>) -> Seq<Seq<char>> {
    es.map_values(|x: ElementView| x.element_identifier)
}

/// For each of the first `k` kinds that has elements: the pages of those
/// elements, then their identifiers.
pub open spec fn bucket_pairs(key: DocumentKey, e: Seq<EntryView>, es: Seq<ElementView>, k: nat) -> Seq<PairView>
    decreases k,
{
    if k == 0 {
        Seq::empty()
    } else {
        let prev = bucket_pairs(key, e, es, (k - 1) as nat);
        let t = type_at_ordinal((k - 1) as nat);
        let items = elements_at(type_list(e, t), es);
        if type_list(e, t).len() > 0 {
            prev + pages_seg(key, type_slug(t), items) + seq![
                (doc_prefix_spec(key) + ":ids:"@ + type_slug(t), KvValueView::Identifiers(identifiers_of(items))),
            ]
        } else {
            prev
        }
    }
}

/// The identifiers, each once and in order, of the first `n` entries that
/// have the word `w`.
pub open spec fn ids_with_word(e: Seq<EntryView>, w: Seq<char>, n: nat) -> Seq<Seq<char>>
    decreases n,
{
    if n == 0 {
        Seq::empty()
    } else {
        let prev = ids_with_word(e, w, (n - 1) as nat);
        if e[n - 1].tokens.contains(w) && !prev.contains(e[n - 1].identifier) {
            prev.push(e[n - 1].identifier)
        } else {
            prev
        }
    }
}

/// Every word of some entry.
pub open spec fn all_words(e: Seq<EntryView>) -> Set<Seq<char>> {
    Set::new(|w: Seq<char>| exists|i: int| 0 <= i < e.len() && #[trigger] e[i].tokens.contains(w))
}

/// One posting list per word, in the order of `ws`.
pub open spec fn token_pairs(key: DocumentKey, e: Seq<EntryView>, ws: Seq<Seq<char>>) -> Seq<PairView> {
    ws.map_values(|w: Seq<char>| (doc_prefix_spec(key) + ":idx:tok:"@ + w, KvValueView::Identifiers(ids_with_word(e, w, e.len()))))
}

/// Every pair of a document but its posting lists, in the order written.
pub open spec fn document_pairs(
    key: DocumentKey,
    es: Seq<ElementView>,
    rs: Seq<RelationshipView>,
    docs: Seq<DocumentView>,
    scores: ScoreTable,
    validator: ScoreTable,
) -> Seq<PairView> {
    let e = entries_of(es);
    let fams = families_over(scores, validator, type_list(e, ElementType::Family), es);
    seq![
        (doc_prefix_spec(key) + ":summary"@, summary_view(e, rs, docs)),
        (doc_prefix_spec(key) + ":families"@, KvValueView::Families(fams)),
    ] + family_pairs(key, fams) + seq![
        (doc_prefix_spec(key) + ":requirements"@, KvValueView::Requirements(
            requirements_over(scores, validator, type_list(e, ElementType::Requirement), es),
        )),
        (doc_prefix_spec(key) + ":secreq"@, KvValueView::SecurityRequirements(
            security_requirements_over(scores, validator, type_list(e, ElementType::SecurityRequirement), es),
        )),
        (doc_prefix_spec(key) + ":rels"@, KvValueView::Relationships(rs)),
    ] + element_pairs(key, e, es, rs, es.len()) + pages_seg(key, "all"@, es) + bucket_pairs(
        key,
        e,
        es,
        ELEMENT_TYPE_COUNT as nat,
    )
}

/// Writes one pair per family.
fn write_family_pairs(
    pairs: &mut Vec<BulkPair>,
    key: DocumentKey,
    doc: &DocumentContext,
    scoring_db: &ScoringDatabase,
    poam_validator: &PoamValidator,
)
    ensures
        pairs_view(final(pairs)@) == pairs_view(old(pairs)@) + family_pairs(
            key,
            families_over(
                scoring_db@,
                poam_validator.table(),
                type_list(doc.index@, ElementType::Family),
                elements_view(doc.elements@),
            ),
        ),
{
    let ghost base = pairs_view(pairs@);
    let mut rest = families(doc, scoring_db, poam_validator);
    let ghost fs = families_view(rest@);
    assert(fs.subrange(0, fs.len() as int) =~= fs);
    assert(family_pairs(key, fs.take(0)) =~= Seq::<PairView>::empty());
    let n = rest.len();
    let mut i: usize = 0;
    while i < n
        invariant
            i <= n,
            n == fs.len(),
            families_view(rest@) == fs.subrange(i as int, n as int),
            pairs_view(pairs@) == base + family_pairs(key, fs.take(i as int)),
        decreases n - i,
    {
        let ghost before = rest@;
        assert(families_view(before).len() == before.len());
        let f = rest.remove(0);
        assert(f@ == fs[i as int]) by {
            assert(families_view(before)[0] == before[0]@);
            assert(families_view(before)[0] == fs[i as int]);
        }
        proof {
            assert(rest@ =~= before.subrange(1, before.len() as int));
            assert forall|j: int| 0 <= j < rest@.len() implies #[trigger] families_view(rest@)[j] == fs[i + 1 + j] by {
                assert(rest@[j] == before[j + 1]);
                assert(families_view(before)[j + 1] == before[j + 1]@);
            }
            assert(families_view(rest@) =~= fs.subrange(i + 1, n as int));
        }
        let k = keys::family(key, f.identifier.as_str());
        push_pair(pairs, k, KvValue::Family(f));
        assert(family_pairs(key, fs.take(i + 1)) =~= family_pairs(key, fs.take(i as int)).push(
            (doc_prefix_spec(key) + ":family:"@ + fs[i as int].identifier, KvValueView::Family(fs[i as int])),
        ));
        i = i + 1;
    }
    assert(fs.take(n as int) =~= fs);
}

/// Writes, for each identifier, its last element and the relationships touching it.
fn write_element_pairs(pairs: &mut Vec<BulkPair>, key: DocumentKey, doc: &DocumentContext)
    requires
        indexes(doc.index@, elements_view(doc.elements@)),
    ensures
        pairs_view(final(pairs)@) == pairs_view(old(pairs)@) + element_pairs(
            key,
            doc.index@,
            elements_view(doc.elements@),
            relationships_view(doc.relationships@),
            doc.elements@.len(),
        ),
{
    let ghost base = pairs_view(pairs@);
    let ghost es = elements_view(doc.elements@);
    let ghost rs = relationships_view(doc.relationships@);
    let n = doc.elements.len();
    for i in 0..n
        invariant
            n == doc.elements@.len(),
            es == elements_view(doc.elements@),
            rs == relationships_view(doc.relationships@),
            indexes(doc.index@, es),
            pairs_view(pairs@) == base + element_pairs(key, doc.index@, es, rs, i as nat),
    {
        let id = doc.elements[i].element_identifier.as_str();
        assert(es[i as int].element_identifier == id@);
        let last = match doc.index.get_by_identifier(id) {
            Some(j) => j == i,
            None => false,
        };
        if last {
            push_pair(pairs, keys::element(key, id), KvValue::Element(doc.elements[i].duplicate()));
            match element_relationships(doc, id) {
                Ok(rels) => {
                    push_pair(pairs, keys::element_rels(key, id), KvValue::Relationships(rels));
                },
                Err(_) => {
                    assert(false);
                },
            }
            assert(pairs_view(pairs@) =~= base + element_pairs(key, doc.index@, es, rs, (i + 1) as nat));
        }
    }
}

/// Writes, for each kind that has elements, their pages and their identifiers.
fn write_bucket_pairs(pairs: &mut Vec<BulkPair>, key: DocumentKey, doc: &DocumentContext)
    ensures
        pairs_view(final(pairs)@) == pairs_view(old(pairs)@) + bucket_pairs(
            key,
            doc.index@,
            elements_view(doc.elements@),
            ELEMENT_TYPE_COUNT as nat,
        ),
{
    let ghost base = pairs_view(pairs@);
    let ghost es = elements_view(doc.elements@);
    let n = doc.elements.len();
    for k in 0..ELEMENT_TYPE_COUNT
        invariant
            n == doc.elements@.len(),
            es == elements_view(doc.elements@),
            pairs_view(pairs@) == base + bucket_pairs(key, doc.index@, es, k as nat),
    {
        let t = type_from_ordinal(k);
        let list = doc.index.get_by_type(t);
        assert(list@ == type_list(doc.index@, t));
        if list.len() > 0 {
            let mut items: Vec<Element> = Vec::new();
            let mut ids: Vec<String> = Vec::new();
            let m = list.len();
            for j in 0..m
                invariant
                    m == list@.len(),
                    n == doc.elements@.len(),
                    es == elements_view(doc.elements@),
                    elements_view(items@) == elements_at(list@.take(j as int), es),
                    strings_view(ids@) == identifiers_of(elements_view(items@)),
            {
                proof {
                    assert(list@.take(j + 1).drop_last() =~= list@.take(j as int));
                    assert(list@.take(j + 1).last() == list@[j as int]);
                }
                let p = list[j];
                if p < n {
                    let ghost before = elements_view(items@);
                    let ghost before_ids = strings_view(ids@);
                    items.push(doc.elements[p].duplicate());
                    ids.push(doc.elements[p].element_identifier.clone());
                    assert(elements_view(items@) =~= before.push(es[p as int]));
                    assert(strings_view(ids@) =~= before_ids.push(es[p as int].element_identifier));
                    assert(identifiers_of(elements_view(items@)) =~= identifiers_of(before).push(
                        es[p as int].element_identifier,
                    ));
                }
            }
            assert(list@.take(m as int) =~= list@);
            let bucket = t.slug();
            write_pages(pairs, key, bucket, items.as_slice());
            push_pair(pairs, keys::ids(key, bucket), KvValue::Identifiers(ids));
            assert(pairs_view(pairs@) =~= base + bucket_pairs(key, doc.index@, es, (k + 1) as nat));
        } else {
            assert(pairs_view(pairs@) =~= base + bucket_pairs(key, doc.index@, es, (k + 1) as nat));
        }
    }
}

/// Whether `s` is one of `v`.
fn holds_string(v: &[String], s: &String) -> (b: bool)
    ensures
        b == strings_view(v@).contains(s@),
{
    let n = v.len();
    for i in 0..n
        invariant
            n == v@.len(),
            forall|j: int| 0 <= j < i ==> v@[j]@ != s@,
    {
        if v[i] == *s {
            assert(strings_view(v@)[i as int] == s@);
            return true;
        }
    }
    assert forall|j: int| 0 <= j < strings_view(v@).len() implies strings_view(v@)[j] != s@ by {
        assert(strings_view(v@)[j] == v@[j]@);
    }
    false
}

/// The words of the first `n` entries.
pub open spec fn words_upto(e: Seq<EntryView>, n: int) -> Set<Seq<char>> {
    Set::new(|w: Seq<char>| exists|i: int| 0 <= i < n && #[trigger] e[i].tokens.contains(w))
}

/// Every word of the index, each once.
fn distinct_words(index: &SearchIndex) -> (r: Vec<String>)
    ensures
        strings_view(r@).no_duplicates(),
        strings_view(r@).to_set() == all_words(index@),
{
    let mut words: Vec<String> = Vec::new();
    assert(strings_view(words@) =~= Seq::<Seq<char>>::empty());
    assert(strings_view(words@).to_set() =~= words_upto(index@, 0));
    let n = index.len();
    for i in 0..n
        invariant
            n == index@.len(),
            strings_view(words@).no_duplicates(),
            strings_view(words@).to_set() == words_upto(index@, i as int),
    {
        let ws = index.words_of(i);
        add_tokens(&mut words, ws);
        assert(strings_view(words@).to_set() =~= words_upto(index@, i + 1)) by {
            assert forall|w: Seq<char>| words_upto(index@, i + 1).contains(w) implies strings_view(words@).to_set().contains(w) by {
                let j = choose|j: int| 0 <= j < i + 1 && #[trigger] index@[j].tokens.contains(w);
                if j < i {
                    assert(words_upto(index@, i as int).contains(w));
                }
            }
        }
    }
    assert(words_upto(index@, n as int) =~= all_words(index@));
    words
}

/// The identifiers, each once and in order, of the elements with the word `w`.
fn posting_list(index: &SearchIndex, elements: &[Element], w: &String) -> (r: Vec<String>)
    requires
        indexes(index@, elements_view(elements@)),
    ensures
        strings_view(r@) == ids_with_word(index@, w@, index@.len()),
{
    let mut r: Vec<String> = Vec::new();
    let n = index.len();
    for i in 0..n
        invariant
            n == index@.len(),
            indexes(index@, elements_view(elements@)),
            strings_view(r@) == ids_with_word(index@, w@, i as nat),
    {
        let ws = index.words_of(i);
        let id = &elements[i].element_identifier;
        assert(index@[i as int].identifier == id@) by {
            assert(index@[i as int] == entry_of(elements_view(elements@)[i as int]));
        }
        if holds_string(ws, w) && !holds_string(r.as_slice(), id) {
            let ghost before = strings_view(r@);
            r.push(id.clone());
            assert(strings_view(r@) =~= before.push(id@));
        }
    }
    r
}

/// Writes one posting list per word of the index, in some order, each word once.
fn write_token_pairs(pairs: &mut Vec<BulkPair>, key: DocumentKey, doc: &DocumentContext)
    requires
        indexes(doc.index@, elements_view(doc.elements@)),
    ensures
        exists|ws: Seq<Seq<char>>|
            ws.no_duplicates() && ws.to_set() == all_words(doc.index@) && pairs_view(final(pairs)@) == pairs_view(
                old(pairs)@,
            ) + token_pairs(key, doc.index@, ws),
{
    let ghost base = pairs_view(pairs@);
    let words = distinct_words(doc.index);
    let ghost ws = strings_view(words@);
    let m = words.len();
    for q in 0..m
        invariant
            m == words@.len(),
            ws == strings_view(words@),
            indexes(doc.index@, elements_view(doc.elements@)),
            pairs_view(pairs@) == base + token_pairs(key, doc.index@, ws.take(q as int)),
    {
        let w = &words[q];
        let posting = posting_list(doc.index, doc.elements, w);
        push_pair(pairs, keys::token(key, w.as_str()), KvValue::Identifiers(posting));
        assert(token_pairs(key, doc.index@, ws.take(q + 1)) =~= token_pairs(key, doc.index@, ws.take(q as int)).push(
            (doc_prefix_spec(key) + ":idx:tok:"@ + ws[q as int], KvValueView::Identifiers(
                ids_with_word(doc.index@, ws[q as int], doc.index@.len()),
            )),
        ));
    }
    assert(ws.take(m as int) =~= ws);
}

/// `last_with_identifier` names an entry with the identifier, and no later one has it.
proof fn lemma_last_with_identifier(e: Seq<EntryView>, id: Seq<char>)
    ensures
        match last_with_identifier(e, id) {
            Some(i) => i < e.len() && e[i as int].identifier == id && forall|j: int|
                i < j < e.len() ==> e[j].identifier != id,
            None => forall|j: int| 0 <= j < e.len() ==> e[j].identifier != id,
        },
    decreases e.len(),
{
    if e.len() > 0 {
        let d = e.drop_last();
        lemma_last_with_identifier(d, id);
        assert forall|j: int| 0 <= j < d.len() implies d[j] == e[j] by {}
    }
}

/// The pairs for the first `k` positions come first among those for `m >= k`.
proof fn lemma_element_pairs_prefix(
    key: DocumentKey,
    e: Seq<EntryView>,
    es: Seq<ElementView>,
    rs: Seq<RelationshipView>,
    k: nat,
    m: nat,
)
    requires
        k <= m,
    ensures
        element_pairs(key, e, es, rs, k) == element_pairs(key, e, es, rs, m).subrange(
            0,
            element_pairs(key, e, es, rs, k).len() as int,
        ),
        element_pairs(key, e, es, rs, k).len() <= element_pairs(key, e, es, rs, m).len(),
    decreases m,
{
    if k < m {
        lemma_element_pairs_prefix(key, e, es, rs, k, (m - 1) as nat);
        let a = element_pairs(key, e, es, rs, k);
        let b = element_pairs(key, e, es, rs, (m - 1) as nat);
        let c = element_pairs(key, e, es, rs, m);
        assert(c.subrange(0, b.len() as int) =~= b);
        assert(c.subrange(0, a.len() as int) =~= b.subrange(0, a.len() as int));
    } else {
        assert(element_pairs(key, e, es, rs, k).subrange(0, element_pairs(key, e, es, rs, k).len() as int)
            =~= element_pairs(key, e, es, rs, k));
    }
}

/// What the key-value layout stores for an identifier is what a lookup of the
/// loaded document answers: the last element with the identifier (as
/// `element` returns it), and the relationships touching it (as
/// `element_relationships` returns them).
pub proof fn lemma_stored_element_matches_lookup(
    key: DocumentKey,
    es: Seq<ElementView>,
    rs: Seq<RelationshipView>,
    id: Seq<char>,
)
    requires
        last_with_identifier(entries_of(es), id) is Some,
    ensures
        ({
            let i = last_with_identifier(entries_of(es), id).unwrap() as int;
            let stored = element_pairs(key, entries_of(es), es, rs, es.len());
            &&& element_outcome(entries_of(es), es, id) == Ok::<ElementView, Seq<char>>(es[i])
            &&& stored.contains((doc_prefix_spec(key) + ":el:"@ + id, KvValueView::Element(es[i])))
            &&& stored.contains(
                (doc_prefix_spec(key) + ":el:"@ + id + ":rels"@, KvValueView::Relationships(relationships_touching(rs, id))),
            )
        }),
{
    let e = entries_of(es);
    lemma_last_with_identifier(e, id);
    let i = last_with_identifier(e, id).unwrap() as int;
    assert(es[i].element_identifier == id);
    let before = element_pairs(key, e, es, rs, i as nat);
    let at = element_pairs(key, e, es, rs, (i + 1) as nat);
    assert(at == before + seq![
        (doc_prefix_spec(key) + ":el:"@ + id, KvValueView::Element(es[i])),
        (doc_prefix_spec(key) + ":el:"@ + id + ":rels"@, KvValueView::Relationships(relationships_touching(rs, id))),
    ]);
    lemma_element_pairs_prefix(key, e, es, rs, (i + 1) as nat, es.len());
    let stored = element_pairs(key, e, es, rs, es.len());
    assert(stored[before.len() as int] == at[before.len() as int]);
    assert(stored[before.len() as int + 1] == at[before.len() as int + 1]);
}

/// The views of a list of metadata records.
pub open spec fn documents_view(v: Seq<Document>) -> Seq<DocumentView> {
    v.map_values(|d: Document| d@)
}

/// Writes every key of a document: summary, families (as a list and one by
/// one), requirements, security requirements, relationships, each identifier's
/// last element and the relationships touching it, the pages of all elements,
/// the pages and identifiers of each kind that has elements, and one posting
/// list per word of the search index (in some order, each word once).
#[verifier::rlimit(40)]
#[verifier::spinoff_prover]
pub fn emit_document(
    pairs: &mut Vec<BulkPair>,
    key: DocumentKey,
    data: &NistData,
    scoring_db: &ScoringDatabase,
    poam_validator: &PoamValidator,
)
    ensures
        exists|ws: Seq<Seq<char>>|
            ws.no_duplicates() && ws.to_set() == all_words(entries_of(elements_view(data.response.elements.elements@)))
                && pairs_view(final(pairs)@) == pairs_view(old(pairs)@) + document_pairs(
                key,
                elements_view(data.response.elements.elements@),
                relationships_view(data.response.elements.relationships@),
                documents_view(data.response.elements.documents@),
                scoring_db@,
                poam_validator.table(),
            ) + token_pairs(key, entries_of(elements_view(data.response.elements.elements@)), ws),
{
    let ghost base = pairs_view(pairs@);
    let ghost es = elements_view(data.response.elements.elements@);
    let ghost rs = relationships_view(data.response.elements.relationships@);
    let ghost docs = documents_view(data.response.elements.documents@);
    let elements = data.response.elements.elements.as_slice();
    let index = SearchIndex::build(elements);
    assert(index@ =~= entries_of(es));
    let doc = DocumentContext {
        elements,
        relationships: data.response.elements.relationships.as_slice(),
        index: &index,
        documents: data.response.elements.documents.as_slice(),
    };
    assert(indexes(doc.index@, elements_view(doc.elements@)));
    let ghost e = entries_of(es);
    let ghost scores = scoring_db@;
    let ghost validator = poam_validator.table();

    let s = summary(&doc);
    if data.response.elements.documents.len() > 0 {
        assert(docs[0] == data.response.elements.documents@[0]@);
    }
    let ghost sv = summary_view(e, rs, docs);
    assert(KvValue::Summary(s)@ == sv);
    push_pair(pairs, keys::summary(key), KvValue::Summary(s));
    let ghost fams = families_over(scores, validator, type_list(e, ElementType::Family), es);
    push_pair(pairs, keys::families(key), KvValue::Families(families(&doc, scoring_db, poam_validator)));
    let ghost seg1 = seq![
        (doc_prefix_spec(key) + ":summary"@, sv),
        (doc_prefix_spec(key) + ":families"@, KvValueView::Families(fams)),
    ];
    assert(pairs_view(pairs@) =~= base + seg1);
    write_family_pairs(pairs, key, &doc, scoring_db, poam_validator);
    let ghost fp = family_pairs(key, fams);
    let ghost p2 = pairs_view(pairs@);
    assert(p2 == base + seg1 + fp);
    push_pair(pairs, keys::requirements(key), KvValue::Requirements(requirements(&doc, scoring_db, poam_validator)));
    push_pair(
        pairs,
        keys::secreq(key),
        KvValue::SecurityRequirements(security_requirements(&doc, scoring_db, poam_validator)),
    );
    push_pair(pairs, keys::relationships(key), KvValue::Relationships(relationships(&doc)));
    let ghost seg3 = seq![
        (doc_prefix_spec(key) + ":requirements"@, KvValueView::Requirements(
            requirements_over(scores, validator, type_list(e, ElementType::Requirement), es),
        )),
        (doc_prefix_spec(key) + ":secreq"@, KvValueView::SecurityRequirements(
            security_requirements_over(scores, validator, type_list(e, ElementType::SecurityRequirement), es),
        )),
        (doc_prefix_spec(key) + ":rels"@, KvValueView::Relationships(rs)),
    ];
    assert(pairs_view(pairs@) =~= p2 + seg3);
    let ghost p3 = pairs_view(pairs@);
    write_element_pairs(pairs, key, &doc);
    let ghost ep = element_pairs(key, e, es, rs, es.len());
    let ghost p4 = pairs_view(pairs@);
    assert(p4 == p3 + ep);
    write_pages(pairs, key, "all", elements);
    proof {
        reveal_strlit("all");
    }
    let ghost pg = pages_seg(key, "all"@, es);
    let ghost p5 = pairs_view(pairs@);
    assert(p5 == p4 + pg);
    write_bucket_pairs(pairs, key, &doc);
    let ghost bp = bucket_pairs(key, e, es, ELEMENT_TYPE_COUNT as nat);
    let ghost p6 = pairs_view(pairs@);
    assert(p6 == p5 + bp);
    proof {
        lemma_document_pairs(key, es, rs, docs, scores, validator, seg1, fp, seg3, ep, pg, bp);
        assert(p6 =~= base + (seg1 + fp + seg3 + ep + pg + bp));
    }
    write_token_pairs(pairs, key, &doc);
}

/// The pairs of a document, piece by piece.
proof fn lemma_document_pairs(
    key: DocumentKey,
    es: Seq<ElementView>,
    rs: Seq<RelationshipView>,
    docs: Seq<DocumentView>,
    scores: ScoreTable,
    validator: ScoreTable,
    seg1: Seq<PairView>,
    fp: Seq<PairView>,
    seg3: Seq<PairView>,
    ep: Seq<PairView>,
    pg: Seq<PairView>,
    bp: Seq<PairView>,
)
    requires
        seg1 == seq![
            (doc_prefix_spec(key) + ":summary"@, summary_view(entries_of(es), rs, docs)),
            (doc_prefix_spec(key) + ":families"@, KvValueView::Families(
                families_over(scores, validator, type_list(entries_of(es), ElementType::Family), es),
            )),
        ],
        fp == family_pairs(key, families_over(scores, validator, type_list(entries_of(es), ElementType::Family), es)),
        seg3 == seq![
            (doc_prefix_spec(key) + ":requirements"@, KvValueView::Requirements(
                requirements_over(scores, validator, type_list(entries_of(es), ElementType::Requirement), es),
            )),
            (doc_prefix_spec(key) + ":secreq"@, KvValueView::SecurityRequirements(
                security_requirements_over(
                    scores,
                    validator,
                    type_list(entries_of(es), ElementType::SecurityRequirement),
                    es,
                ),
            )),
            (doc_prefix_spec(key) + ":rels"@, KvValueView::Relationships(rs)),
        ],
        ep == element_pairs(key, entries_of(es), es, rs, es.len()),
        pg == pages_seg(key, "all"@, es),
        bp == bucket_pairs(key, entries_of(es), es, ELEMENT_TYPE_COUNT as nat),
    ensures
        document_pairs(key, es, rs, docs, scores, validator) == seg1 + fp + seg3 + ep + pg + bp,
{
}

/// The pair that lists the published documents.
pub fn index_pair(infos: Vec<DocumentInfo>) -> (p: BulkPair)
    ensures
        p.key@ == "t:"@ + KV_VERSION@ + ":index"@,
        p.value@ == KvValueView::Documents(infos_view(infos@)),
{
    BulkPair { key: keys::index(), value: KvValue::Documents(infos) }
}

} // verus!
