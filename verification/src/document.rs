//! A loaded document: its parsed data together with the search index built
//! over its elements, and the borrowed view that the service functions take.

use vstd::prelude::*;

use crate::assemble::elements_view;
use crate::index::{entry_of, EntryView, SearchIndex};
use crate::model::{Document, Element, ElementView, NistData, Relationship};

verus! {

/// The index records exactly the given elements, position by position.
pub open spec fn indexes(index: Seq<EntryView>, es: Seq<ElementView>) -> bool {
    index.len() == es.len() && forall|i: int| 0 <= i < es.len() ==> #[trigger] index[i] == entry_of(es[i])
}

/// Parsed data and search index for a single document and revision.
pub struct DocumentData {
    data: NistData,
    index: SearchIndex,
}

impl DocumentData {
    #[verifier::type_invariant]
    spec fn index_matches(self) -> bool {
        indexes(self.index@, elements_view(self.data.response.elements.elements@))
    }

    /// The document's elements.
    pub closed spec fn elements(&self) -> Seq<Element> {
        self.data.response.elements.elements@
    }

    /// The document's relationships.
    pub closed spec fn relationships(&self) -> Seq<Relationship> {
        self.data.response.elements.relationships@
    }

    /// The document's metadata records.
    pub closed spec fn documents(&self) -> Seq<Document> {
        self.data.response.elements.documents@
    }

    /// Build from parsed data, computing the search index.
    pub fn new(data: NistData) -> (d: DocumentData)
        ensures
            d.elements() == data.response.elements.elements@,
            d.relationships() == data.response.elements.relationships@,
            d.documents() == data.response.elements.documents@,
    {
        let index = SearchIndex::build(data.response.elements.elements.as_slice());
        assert(indexes(index@, elements_view(data.response.elements.elements@)));
        DocumentData { data, index }
    }

    /// Borrow a combined view for the service functions.
    pub fn context(&self) -> (c: DocumentContext<'_>)
        ensures
            c.elements@ == self.elements(),
            c.relationships@ == self.relationships(),
            c.documents@ == self.documents(),
            indexes(c.index@, elements_view(c.elements@)),
    {
        proof {
            use_type_invariant(self);
        }
        DocumentContext {
            elements: self.data.response.elements.elements.as_slice(),
            relationships: self.data.response.elements.relationships.as_slice(),
            index: &self.index,
            documents: self.data.response.elements.documents.as_slice(),
        }
    }
}

/// Borrowed view over a single loaded document.
pub struct DocumentContext<'a> {
    /// All elements in the document.
    pub elements: &'a [Element],
    /// All relationships in the document.
    pub relationships: &'a [Relationship],
    /// Pre-built search index.
    pub index: &'a SearchIndex,
    /// Document metadata (name, version, website, ...).
    pub documents: &'a [Document],
}

} // verus!
