//! Shared state holding every loaded document, the scoring table and the
//! POA&M validator.

use vstd::prelude::*;

use crate::assemble::elements_view;
use crate::document::{indexes, DocumentContext, DocumentData};
use crate::model::{Document, DocumentKey, Element, NistData, Relationship};
use crate::poam::PoamValidator;
use crate::annex::annex_rows;
use crate::scoring::{insert_all, ScoreTable, ScoringDatabase};

verus! {

/// Position of the last dataset with key `k`.
pub open spec fn last_dataset(ds: Seq<(DocumentKey, NistData)>, k: DocumentKey) -> Option<int>
    decreases ds.len(),
{
    if ds.len() == 0 {
        None
    } else if ds.last().0 == k {
        Some(ds.len() - 1)
    } else {
        last_dataset(ds.drop_last(), k)
    }
}

/// `last_dataset` finds a matching position, and no later one matches.
pub proof fn lemma_last_dataset(ds: Seq<(DocumentKey, NistData)>, k: DocumentKey)
    ensures
        match last_dataset(ds, k) {
            Some(i) => 0 <= i < ds.len() && ds[i].0 == k && forall|j: int| i < j < ds.len() ==> ds[j].0 != k,
            None => forall|j: int| 0 <= j < ds.len() ==> ds[j].0 != k,
        },
    decreases ds.len(),
{
    if ds.len() > 0 {
        let d = ds.drop_last();
        lemma_last_dataset(d, k);
        assert forall|j: int| 0 <= j < d.len() implies d[j] == ds[j] by {}
    }
}

/// The keys of stored documents, in order.
pub open spec fn doc_keys(v: Seq<(DocumentKey, DocumentData)>) -> Seq<DocumentKey> {
    v.map_values(|p: (DocumentKey, DocumentData)| p.0)
}

/// Shared state holding all loaded documents (NIST, FAR, ...).
pub struct CmmcState {
    documents: Vec<(DocumentKey, DocumentData)>,
    scoring_db: ScoringDatabase,
    poam_validator: PoamValidator,
}

impl CmmcState {
    /// Keys of the loaded documents, each once.
    pub closed spec fn keys(&self) -> Seq<DocumentKey> {
        doc_keys(self.documents@)
    }

    /// Elements of the loaded document at position `i`.
    pub closed spec fn elements_at(&self, i: int) -> Seq<Element> {
        self.documents@[i].1.elements()
    }

    /// Relationships of the loaded document at position `i`.
    pub closed spec fn relationships_at(&self, i: int) -> Seq<Relationship> {
        self.documents@[i].1.relationships()
    }

    /// Metadata records of the loaded document at position `i`.
    pub closed spec fn documents_at(&self, i: int) -> Seq<Document> {
        self.documents@[i].1.documents()
    }

    /// The scoring table.
    pub closed spec fn scores(&self) -> ScoreTable {
        self.scoring_db@
    }

    /// The table behind the POA&M validator.
    pub closed spec fn validator_table(&self) -> ScoreTable {
        self.poam_validator.table()
    }

    #[verifier::type_invariant]
    spec fn keys_unique(self) -> bool {
        self.keys().no_duplicates()
    }

    /// Create state from (key, data) pairs with the built-in scoring table;
    /// a later pair with the same key replaces an earlier one.
    pub fn new(datasets: Vec<(DocumentKey, NistData)>) -> (s: Self)
        ensures
            s.scores() == insert_all(Seq::empty(), annex_rows()),
            s.validator_table() == insert_all(Seq::empty(), annex_rows()),
            s.keys().no_duplicates(),
            forall|k: DocumentKey| #[trigger] s.keys().contains(k) <==> exists|j: int| 0 <= j < datasets@.len() && datasets@[j].0 == k,
            forall|i: int|
                0 <= i < s.keys().len() ==> #[trigger] s.elements_at(i) == datasets@[last_dataset(
                    datasets@,
                    s.keys()[i],
                ).unwrap()].1.response.elements.elements@,
            forall|i: int|
                0 <= i < s.keys().len() ==> #[trigger] s.relationships_at(i) == datasets@[last_dataset(
                    datasets@,
                    s.keys()[i],
                ).unwrap()].1.response.elements.relationships@,
            forall|i: int|
                0 <= i < s.keys().len() ==> #[trigger] s.documents_at(i) == datasets@[last_dataset(
                    datasets@,
                    s.keys()[i],
                ).unwrap()].1.response.elements.documents@,
    {
        CmmcState::with_scoring(datasets, ScoringDatabase::new(), ScoringDatabase::new())
    }

    /// Create state from (key, data) pairs, with the given scoring table and
    /// the table behind the POA&M validator; a later pair with the same key
    /// replaces an earlier one.
    pub fn with_scoring(
        datasets: Vec<(DocumentKey, NistData)>,
        scoring_db: ScoringDatabase,
        poam_scoring: ScoringDatabase,
    ) -> (s: Self)
        ensures
            s.scores() == scoring_db@,
            s.validator_table() == poam_scoring@,
            s.keys().no_duplicates(),
            forall|k: DocumentKey| #[trigger] s.keys().contains(k) <==> exists|j: int| 0 <= j < datasets@.len() && datasets@[j].0 == k,
            forall|i: int|
                0 <= i < s.keys().len() ==> #[trigger] s.elements_at(i) == datasets@[last_dataset(
                    datasets@,
                    s.keys()[i],
                ).unwrap()].1.response.elements.elements@,
            forall|i: int|
                0 <= i < s.keys().len() ==> #[trigger] s.relationships_at(i) == datasets@[last_dataset(
                    datasets@,
                    s.keys()[i],
                ).unwrap()].1.response.elements.relationships@,
            forall|i: int|
                0 <= i < s.keys().len() ==> #[trigger] s.documents_at(i) == datasets@[last_dataset(
                    datasets@,
                    s.keys()[i],
                ).unwrap()].1.response.elements.documents@,
    {
        let ghost ds = datasets@;
        let mut rest = datasets;
        let mut documents: Vec<(DocumentKey, DocumentData)> = Vec::new();
        while rest.len() > 0
            invariant
                rest@ == ds.take(rest@.len() as int),
                rest@.len() <= ds.len(),
                doc_keys(documents@).no_duplicates(),
                forall|k: DocumentKey|
                    #[trigger] doc_keys(documents@).contains(k) <==> exists|j: int|
                        rest@.len() <= j < ds.len() && ds[j].0 == k,
                forall|i: int|
                    0 <= i < documents@.len() ==> last_dataset(ds, #[trigger] documents@[i].0) is Some
                        && documents@[i].1.elements() == ds[last_dataset(
                        ds,
                        documents@[i].0,
                    ).unwrap()].1.response.elements.elements@
                        && documents@[i].1.relationships() == ds[last_dataset(
                        ds,
                        documents@[i].0,
                    ).unwrap()].1.response.elements.relationships@
                        && documents@[i].1.documents() == ds[last_dataset(
                        ds,
                        documents@[i].0,
                    ).unwrap()].1.response.elements.documents@,
            decreases rest@.len(),
        {
            let ghost m = rest@.len() - 1;
            let (key, data) = rest.pop().unwrap();
            assert(rest@ == ds.take(m)) by {
                assert(ds.take(m + 1).drop_last() =~= ds.take(m));
            }
            assert(ds[m] == (key, data)) by {
                assert(ds.take(m + 1)[m] == ds[m]);
            }
            let ghost keys_before = doc_keys(documents@);
            let n = documents.len();
            let mut present = false;
            for i in 0..n
                invariant
                    n == documents@.len(),
                    present <==> exists|j: int| 0 <= j < i && documents@[j].0 == key,
            {
                if documents[i].0 == key {
                    present = true;
                }
            }
            if !present {
                proof {
                    lemma_last_dataset(ds, key);
                    assert forall|j: int| m < j < ds.len() implies ds[j].0 != key by {
                        if ds[j].0 == key {
                            assert(keys_before.contains(key));
                            let t = choose|t: int| 0 <= t < keys_before.len() && keys_before[t] == key;
                            assert(documents@[t].0 == key);
                        }
                    }
                    assert(last_dataset(ds, key) == Some(m));
                }
                let d = DocumentData::new(data);
                documents.push((key, d));
                proof {
                    let keys_after = doc_keys(documents@);
                    assert(keys_after =~= keys_before.push(key));
                    assert forall|a: int, b: int|
                        0 <= a < keys_after.len() && 0 <= b < keys_after.len() && a != b implies keys_after[a]
                        != keys_after[b] by {
                        if a == n as int {
                            assert(documents@[b].0 == keys_before[b]);
                        } else if b == n as int {
                            assert(documents@[a].0 == keys_before[a]);
                        }
                    }
                    assert forall|k: DocumentKey| #[trigger] keys_after.contains(k) <==> exists|j: int|
                        m <= j < ds.len() && ds[j].0 == k by {
                        if keys_after.contains(k) {
                            if k == key {
                                assert(ds[m].0 == k);
                            } else {
                                let t = choose|t: int| 0 <= t < keys_after.len() && keys_after[t] == k;
                                assert(keys_before[t] == k);
                                assert(keys_before.contains(k));
                            }
                        }
                        if exists|j: int| m <= j < ds.len() && ds[j].0 == k {
                            if k == key {
                                assert(keys_after[n as int] == k);
                            } else {
                                let j = choose|j: int| m <= j < ds.len() && ds[j].0 == k;
                                assert(j != m);
                                assert(exists|j2: int| m + 1 <= j2 < ds.len() && ds[j2].0 == k);
                                assert(keys_before.contains(k));
                                let t = choose|t: int| 0 <= t < keys_before.len() && keys_before[t] == k;
                                assert(keys_after[t] == k);
                            }
                        }
                    }
                }
            } else {
                proof {
                    assert forall|k: DocumentKey| #[trigger] keys_before.contains(k) <==> exists|j: int|
                        m <= j < ds.len() && ds[j].0 == k by {
                        if k == key {
                            let t = choose|t: int| 0 <= t < n && documents@[t].0 == key;
                            assert(keys_before[t] == key);
                        }
                        if exists|j: int| m + 1 <= j < ds.len() && ds[j].0 == k {
                        }
                        if keys_before.contains(k) {
                        }
                    }
                }
            }
        }
        let poam_validator = PoamValidator::new(poam_scoring);
        CmmcState { documents, scoring_db, poam_validator }
    }

    /// Keys of all available documents.
    pub fn available_documents(&self) -> (r: Vec<DocumentKey>)
        ensures
            r@ == self.keys(),
    {
        let mut r: Vec<DocumentKey> = Vec::new();
        let n = self.documents.len();
        for i in 0..n
            invariant
                n == self.documents@.len(),
                r@ == self.documents@.take(i as int).map_values(|p: (DocumentKey, DocumentData)| p.0),
        {
            r.push(self.documents[i].0);
            assert(r@ =~= self.documents@.take(i + 1).map_values(|p: (DocumentKey, DocumentData)| p.0));
        }
        assert(self.documents@.take(n as int) =~= self.documents@);
        r
    }

    /// A combined view of elements, relationships, index and metadata of a document.
    pub fn get_document(&self, key: DocumentKey) -> (r: Option<DocumentContext<'_>>)
        ensures
            r is Some <==> self.keys().contains(key),
            r matches Some(c) ==> exists|i: int|
                0 <= i < self.keys().len() && self.keys()[i] == key && c.elements@ == self.elements_at(i)
                    && c.relationships@ == self.relationships_at(i) && c.documents@ == self.documents_at(i),
            r matches Some(c) ==> indexes(c.index@, elements_view(c.elements@)),
    {
        let n = self.documents.len();
        for i in 0..n
            invariant
                n == self.documents@.len(),
                forall|j: int| 0 <= j < i ==> self.documents@[j].0 != key,
        {
            if self.documents[i].0 == key {
                let c = self.documents[i].1.context();
                assert(self.keys()[i as int] == key);
                assert(c.elements@ == self.elements_at(i as int));
                assert(c.relationships@ == self.relationships_at(i as int));
                assert(c.documents@ == self.documents_at(i as int));
                return Some(c);
            }
        }
        assert forall|j: int| 0 <= j < self.keys().len() implies self.keys()[j] != key by {
            assert(self.keys()[j] == self.documents@[j].0);
        }
        None
    }

    /// The element at position `idx` of a loaded document.
    pub fn get_element(&self, key: DocumentKey, idx: usize) -> (r: Option<&Element>)
        ensures
            match r {
                Some(e) => exists|i: int|
                    0 <= i < self.keys().len() && self.keys()[i] == key && idx < self.elements_at(i).len()
                        && *e == self.elements_at(i)[idx as int],
                None => forall|i: int|
                    0 <= i < self.keys().len() && self.keys()[i] == key ==> idx >= self.elements_at(i).len(),
            },
    {
        let n = self.documents.len();
        for i in 0..n
            invariant
                n == self.documents@.len(),
                forall|j: int| 0 <= j < i ==> self.documents@[j].0 != key,
        {
            if self.documents[i].0 == key {
                let c = self.documents[i].1.context();
                assert(self.keys()[i as int] == key);
                if idx < c.elements.len() {
                    let e = &c.elements[idx];
                    return Some(e);
                } else {
                    proof {
                        use_type_invariant(self);
                        assert forall|j: int| 0 <= j < self.keys().len() && self.keys()[j] == key implies idx
                            >= self.elements_at(j).len() by {
                            if j != i {
                                assert(self.keys()[j] == self.keys()[i as int]);
                            }
                        }
                    }
                    return None;
                }
            }
        }
        assert forall|j: int| 0 <= j < self.keys().len() implies self.keys()[j] != key by {
            assert(self.keys()[j] == self.documents@[j].0);
        }
        None
    }

    /// The scoring table.
    pub fn scoring_db(&self) -> (r: &ScoringDatabase)
        ensures
            r@ == self.scores(),
    {
        &self.scoring_db
    }

    /// The POA&M validator.
    pub fn poam_validator(&self) -> (r: &PoamValidator)
        ensures
            r.table() == self.validator_table(),
    {
        &self.poam_validator
    }
}

} // verus!
