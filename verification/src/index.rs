//! Search index over the elements of one document, built once at load time:
//! lookup by identifier, filtering by element kind, and text search through
//! an inverted word index with a substring fallback.

use vstd::prelude::*;

use crate::model::{Element, ElementType, ELEMENT_TYPE_COUNT, type_ordinal};
use crate::order::strings_view;
use crate::text::{
    chars_contain, chars_of, is_alphanumeric, push_char, seq_contains, to_lowercase,
    unicode_alphanumeric, unicode_lowercase,
};

verus! {

// ---------------------------------------------------------------------------
// Tokenizing
// ---------------------------------------------------------------------------

/// A word is kept when its UTF-8 encoding is longer than one byte: two or
/// more characters, or one character outside ASCII.
pub open spec fn token_kept(t: Seq<char>) -> bool {
    t.len() >= 2 || (t.len() == 1 && t[0] >= '\u{80}')
}

/// Scanning state after `s`: the finished words and the word in progress.
pub open spec fn tokenize_state(s: Seq<char>) -> (Seq<Seq<char>>, Seq<char>)
    decreases s.len(),
{
    if s.len() == 0 {
        (Seq::empty(), Seq::empty())
    } else {
        let (done, cur) = tokenize_state(s.drop_last());
        let c = s.last();
        if unicode_alphanumeric(c) {
            (done, cur.push(c))
        } else if token_kept(cur) {
            (done.push(cur), Seq::empty())
        } else {
            (done, Seq::empty())
        }
    }
}

/// The words of `s`: maximal runs of alphanumeric characters that are kept
/// by [`token_kept`], in order.
pub open spec fn tokenize_spec(s: Seq<char>) -> Seq<Seq<char>> {
    let (done, cur) = tokenize_state(s);
    if token_kept(cur) {
        done.push(cur)
    } else {
        done
    }
}

/// Whether a word is kept.
fn is_kept(t: &Vec<char>) -> (b: bool)
    ensures
        b == token_kept(t@),
{
    t.len() >= 2 || (t.len() == 1 && t[0] >= '\u{80}')
}

/// Tokenize text into words (splits on non-alphanumeric characters).
pub fn tokenize(text: &str) -> (r: Vec<String>)
    ensures
        strings_view(r@) == tokenize_spec(text@),
{
    let chars = chars_of(text);
    let n = chars.len();
    let mut done: Vec<String> = Vec::new();
    let mut cur: Vec<char> = Vec::new();
    for i in 0..n
        invariant
            n == chars@.len(),
            chars@ == text@,
            (strings_view(done@), cur@) == tokenize_state(chars@.take(i as int)),
    {
        proof {
            assert(chars@.take(i + 1).drop_last() =~= chars@.take(i as int));
            assert(chars@.take(i + 1).last() == chars@[i as int]);
        }
        let c = chars[i];
        if is_alphanumeric(c) {
            cur.push(c);
        } else {
            if is_kept(&cur) {
                let ghost before = strings_view(done@);
                let mut word = String::new();
                let m = cur.len();
                for k in 0..m
                    invariant
                        m == cur@.len(),
                        word@ == cur@.take(k as int),
                {
                    push_char(&mut word, cur[k]);
                    assert(cur@.take(k + 1) =~= cur@.take(k as int).push(cur@[k as int]));
                }
                assert(cur@.take(m as int) =~= cur@);
                done.push(word);
                assert(strings_view(done@) =~= before.push(cur@));
            }
            cur = Vec::new();
        }
    }
    assert(chars@.take(n as int) =~= chars@);
    if is_kept(&cur) {
        let ghost before = strings_view(done@);
        let mut word = String::new();
        let m = cur.len();
        for k in 0..m
            invariant
                m == cur@.len(),
                word@ == cur@.take(k as int),
        {
            push_char(&mut word, cur[k]);
            assert(cur@.take(k + 1) =~= cur@.take(k as int).push(cur@[k as int]));
        }
        assert(cur@.take(m as int) =~= cur@);
        done.push(word);
        assert(strings_view(done@) =~= before.push(cur@));
    }
    done
}

// ---------------------------------------------------------------------------
// Indexed elements
// ---------------------------------------------------------------------------

/// Pre-computed lowercase fields and words of one element.
pub struct IndexedElement {
    /// Position in the elements array.
    pub index: usize,
    /// Lowercase identifier.
    pub identifier_lower: String,
    /// Lowercase title.
    pub title_lower: String,
    /// Lowercase text.
    pub text_lower: String,
    /// Words from all searchable fields, each once.
    pub tokens: Vec<String>,
}

/// Abstract value of one indexed element, with its kind and identifier.
pub struct EntryView {
    pub element_type: ElementType,
    pub identifier: Seq<char>,
    pub identifier_lower: Seq<char>,
    pub title_lower: Seq<char>,
    pub text_lower: Seq<char>,
    pub tokens: Set<Seq<char>>,
}

/// The words of the three lowercase fields.
pub open spec fn token_set(id_lower: Seq<char>, title_lower: Seq<char>, text_lower: Seq<char>) -> Set<Seq<char>> {
    tokenize_spec(id_lower).to_set().union(tokenize_spec(title_lower).to_set()).union(
        tokenize_spec(text_lower).to_set(),
    )
}

/// What the index records of an element.
pub open spec fn entry_of(e: crate::model::ElementView) -> EntryView {
    let id_lower = unicode_lowercase(e.element_identifier);
    let title_lower = unicode_lowercase(e.title);
    let text_lower = unicode_lowercase(e.text);
    EntryView {
        element_type: e.element_type,
        identifier: e.element_identifier,
        identifier_lower: id_lower,
        title_lower,
        text_lower,
        tokens: token_set(id_lower, title_lower, text_lower),
    }
}

/// Adds each word of `words` to `tokens`, skipping those already present.
pub(crate) fn add_tokens(tokens: &mut Vec<String>, words: &[String])
    requires
        strings_view(old(tokens)@).no_duplicates(),
    ensures
        strings_view(final(tokens)@).no_duplicates(),
        strings_view(final(tokens)@).to_set() == strings_view(old(tokens)@).to_set().union(
            strings_view(words@).to_set(),
        ),
{
    let ghost start = strings_view(tokens@).to_set();
    let n = words.len();
    for i in 0..n
        invariant
            n == words@.len(),
            strings_view(tokens@).no_duplicates(),
            strings_view(tokens@).to_set() == start.union(strings_view(words@).take(i as int).to_set()),
    {
        let w = &words[i];
        let m = tokens.len();
        let mut present = false;
        for k in 0..m
            invariant
                m == tokens@.len(),
                present <==> exists|j: int| 0 <= j < k && tokens@[j]@ == w@,
        {
            if tokens[k] == *w {
                present = true;
            }
        }
        let ghost before = strings_view(tokens@);
        proof {
            let wv = strings_view(words@);
            assert(wv.take(i + 1) =~= wv.take(i as int).push(w@));
        }
        if !present {
            tokens.push(w.clone());
            proof {
                assert(strings_view(tokens@) =~= before.push(w@));
                assert forall|a: int, b: int|
                    0 <= a < strings_view(tokens@).len() && 0 <= b < strings_view(tokens@).len() && a != b
                    implies strings_view(tokens@)[a] != strings_view(tokens@)[b] by {
                    if a < before.len() && b < before.len() {
                    } else if a == before.len() {
                        assert(tokens@[b]@ == before[b]);
                    } else {
                        assert(tokens@[a]@ == before[a]);
                    }
                }
            }
        } else {
            proof {
                let j = choose|j: int| 0 <= j < m && tokens@[j]@ == w@;
                assert(before[j] == w@);
                assert(before.to_set().contains(w@));
                assert(before.to_set().insert(w@) =~= before.to_set());
            }
        }
        proof {
            let wv = strings_view(words@);
            wv.take(i as int).lemma_push_to_set_commute(w@);
            before.lemma_push_to_set_commute(w@);
            assert(wv.take(i as int).push(w@).to_set() =~= wv.take(i as int).to_set().insert(w@));
            assert(strings_view(tokens@).to_set() =~= start.union(wv.take(i + 1).to_set()));
        }
    }
    assert(strings_view(words@).take(n as int) =~= strings_view(words@));
}

// ---------------------------------------------------------------------------
// Selection of indices
// ---------------------------------------------------------------------------

/// What a search or filter asks of an element.
pub enum Criterion {
    /// The element is of this kind.
    OfType(ElementType),
    /// The element passes the kind filter and has this word.
    HasWord(Option<ElementType>, Seq<char>),
    /// The element passes the kind filter and one of its lowercase fields
    /// contains this text.
    HasText(Option<ElementType>, Seq<char>),
}

/// The element passes an optional kind filter.
pub open spec fn passes_filter(e: EntryView, filter: Option<ElementType>) -> bool {
    match filter {
        Some(t) => e.element_type == t,
        None => true,
    }
}

/// The element meets the criterion.
pub open spec fn meets(e: EntryView, c: Criterion) -> bool {
    match c {
        Criterion::OfType(t) => e.element_type == t,
        Criterion::HasWord(filter, w) => passes_filter(e, filter) && e.tokens.contains(w),
        Criterion::HasText(filter, q) => passes_filter(e, filter) && (seq_contains(e.identifier_lower, q)
            || seq_contains(e.title_lower, q) || seq_contains(e.text_lower, q)),
    }
}

/// The positions below `n` whose entries meet the criterion, in increasing order.
pub open spec fn indices_meeting(entries: Seq<EntryView>, n: nat, c: Criterion) -> Seq<usize>
    decreases n,
{
    if n == 0 {
        Seq::empty()
    } else {
        let prev = indices_meeting(entries, (n - 1) as nat, c);
        if meets(entries[n - 1], c) {
            prev.push((n - 1) as usize)
        } else {
            prev
        }
    }
}

/// A position is selected exactly when it is in range and its entry meets the criterion.
pub proof fn lemma_indices_meeting_contains(entries: Seq<EntryView>, n: nat, c: Criterion, i: int)
    requires
        n <= usize::MAX + 1,
    ensures
        indices_meeting(entries, n, c).contains(i as usize) && 0 <= i <= usize::MAX
            <==> (0 <= i < n && meets(entries[i], c)),
    decreases n,
{
    if n > 0 {
        lemma_indices_meeting_contains(entries, (n - 1) as nat, c, i);
        lemma_indices_meeting_bounded(entries, (n - 1) as nat, c);
        let prev = indices_meeting(entries, (n - 1) as nat, c);
        if meets(entries[n - 1], c) {
            let cur = prev.push((n - 1) as usize);
            if 0 <= i <= usize::MAX && cur.contains(i as usize) {
                let k = choose|k: int| 0 <= k < cur.len() && cur[k] == i as usize;
                if k < prev.len() {
                    assert(prev[k] == i as usize);
                }
            }
            if 0 <= i < n - 1 && meets(entries[i], c) {
                let k = choose|k: int| 0 <= k < prev.len() && prev[k] == i as usize;
                assert(cur[k] == i as usize);
            }
            if i == n - 1 {
                assert(cur[prev.len() as int] == i as usize);
            }
        }
    }
}

/// Selected positions are below `n` and strictly increasing.
pub proof fn lemma_indices_meeting_bounded(entries: Seq<EntryView>, n: nat, c: Criterion)
    requires
        n <= usize::MAX + 1,
    ensures
        forall|k: int| 0 <= k < indices_meeting(entries, n, c).len() ==> indices_meeting(entries, n, c)[k] < n,
        forall|a: int, b: int| 0 <= a < b < indices_meeting(entries, n, c).len() ==> indices_meeting(entries, n, c)[a]
            < indices_meeting(entries, n, c)[b],
    decreases n,
{
    if n > 0 {
        lemma_indices_meeting_bounded(entries, (n - 1) as nat, c);
        let prev = indices_meeting(entries, (n - 1) as nat, c);
        if meets(entries[n - 1], c) {
            let cur = prev.push((n - 1) as usize);
            assert(cur[prev.len() as int] == n - 1);
            assert forall|k: int| 0 <= k < cur.len() implies cur[k] < n by {
                if k < prev.len() {
                    assert(cur[k] == prev[k]);
                }
            }
            assert forall|a: int, b: int| 0 <= a < b < cur.len() implies cur[a] < cur[b] by {
                assert(cur[a] == prev[a]);
                if b < prev.len() {
                    assert(cur[b] == prev[b]);
                }
            }
        }
    }
}

/// The kind at a position in declaration order.
pub open spec fn type_at_ordinal(k: nat) -> ElementType {
    if k == 0 { ElementType::Family }
    else if k == 1 { ElementType::Requirement }
    else if k == 2 { ElementType::SecurityRequirement }
    else if k == 3 { ElementType::Discussion }
    else if k == 4 { ElementType::Assessment }
    else if k == 5 { ElementType::AdversaryEffect }
    else if k == 6 { ElementType::ProtectionStrategy }
    else if k == 7 { ElementType::Effect }
    else if k == 8 { ElementType::Tactic }
    else if k == 9 { ElementType::Impact }
    else if k == 10 { ElementType::ExpectedResult }
    else if k == 11 { ElementType::Example }
    else if k == 12 { ElementType::Sort }
    else if k == 13 { ElementType::ReferenceItem }
    else if k == 14 { ElementType::Determination }
    else if k == 15 { ElementType::Examine }
    else if k == 16 { ElementType::Interview }
    else if k == 17 { ElementType::Test }
    else if k == 18 { ElementType::Odp }
    else if k == 19 { ElementType::OdpStatement }
    else if k == 20 { ElementType::OdpType }
    else if k == 21 { ElementType::WithdrawReason }
    else { ElementType::Unknown }
}

/// The kind at a position in declaration order.
pub fn type_from_ordinal(k: usize) -> (t: ElementType)
    ensures
        t == type_at_ordinal(k as nat),
{
    match k {
        0 => ElementType::Family,
        1 => ElementType::Requirement,
        2 => ElementType::SecurityRequirement,
        3 => ElementType::Discussion,
        4 => ElementType::Assessment,
        5 => ElementType::AdversaryEffect,
        6 => ElementType::ProtectionStrategy,
        7 => ElementType::Effect,
        8 => ElementType::Tactic,
        9 => ElementType::Impact,
        10 => ElementType::ExpectedResult,
        11 => ElementType::Example,
        12 => ElementType::Sort,
        13 => ElementType::ReferenceItem,
        14 => ElementType::Determination,
        15 => ElementType::Examine,
        16 => ElementType::Interview,
        17 => ElementType::Test,
        18 => ElementType::Odp,
        19 => ElementType::OdpStatement,
        20 => ElementType::OdpType,
        21 => ElementType::WithdrawReason,
        _ => ElementType::Unknown,
    }
}

/// Position in declaration order identifies the kind.
pub proof fn lemma_type_at_ordinal(t: ElementType)
    ensures
        type_at_ordinal(type_ordinal(t)) == t,
{
}

/// The position of the last entry whose identifier is exactly `id`.
pub open spec fn last_with_identifier(entries: Seq<EntryView>, id: Seq<char>) -> Option<nat>
    decreases entries.len(),
{
    if entries.len() == 0 {
        None
    } else if entries.last().identifier == id {
        Some((entries.len() - 1) as nat)
    } else {
        last_with_identifier(entries.drop_last(), id)
    }
}

/// The positions a search returns: entries passing the kind filter that have
/// the query as a word, when the query is a single word that some such entry
/// has; otherwise those passing the filter whose lowercase identifier, title
/// or text contains the query. Positions come in increasing order.
pub open spec fn search_results(entries: Seq<EntryView>, query_lower: Seq<char>, filter: Option<ElementType>) -> Seq<usize> {
    let words = tokenize_spec(query_lower);
    let by_word = if words.len() == 1 {
        indices_meeting(entries, entries.len(), Criterion::HasWord(filter, words[0]))
    } else {
        Seq::empty()
    };
    if by_word.len() > 0 {
        by_word
    } else {
        indices_meeting(entries, entries.len(), Criterion::HasText(filter, query_lower))
    }
}

// ---------------------------------------------------------------------------
// The index
// ---------------------------------------------------------------------------

/// Search index built once over the elements of a document.
pub struct SearchIndex {
    indexed_elements: Vec<IndexedElement>,
    identifiers: Vec<String>,
    types: Vec<ElementType>,
    by_type: Vec<Vec<usize>>,
    type_counts: Vec<usize>,
}

/// The view of an indexed element, together with its kind and identifier.
pub open spec fn indexed_view(ie: IndexedElement, t: ElementType, id: Seq<char>) -> EntryView {
    EntryView {
        element_type: t,
        identifier: id,
        identifier_lower: ie.identifier_lower@,
        title_lower: ie.title_lower@,
        text_lower: ie.text_lower@,
        tokens: strings_view(ie.tokens@).to_set(),
    }
}

impl View for SearchIndex {
    type V = Seq<EntryView>;

    closed spec fn view(&self) -> Seq<EntryView> {
        Seq::new(
            self.indexed_elements@.len(),
            |i: int| indexed_view(self.indexed_elements@[i], self.types@[i], self.identifiers@[i]@),
        )
    }
}

impl SearchIndex {
    #[verifier::type_invariant]
    spec fn well_formed(self) -> bool {
        let n = self.indexed_elements@.len();
        &&& self.identifiers@.len() == n
        &&& self.types@.len() == n
        &&& n <= usize::MAX
        &&& forall|i: int| 0 <= i < n ==> (#[trigger] self.indexed_elements@[i]).index == i
        &&& forall|i: int| 0 <= i < n ==> strings_view((#[trigger] self.indexed_elements@[i]).tokens@).no_duplicates()
        &&& self.by_type@.len() == ELEMENT_TYPE_COUNT
        &&& self.type_counts@.len() == ELEMENT_TYPE_COUNT
        &&& forall|k: int| 0 <= k < ELEMENT_TYPE_COUNT ==> (#[trigger] self.by_type@[k])@ == indices_meeting(
            self@,
            n as nat,
            Criterion::OfType(type_at_ordinal(k as nat)),
        )
        &&& forall|k: int| 0 <= k < ELEMENT_TYPE_COUNT ==> #[trigger] self.type_counts@[k] == self.by_type@[k]@.len()
    }

    /// The view entry `i` has the stored fields.
    proof fn lemma_entry(&self, i: int)
        requires
            0 <= i < self.indexed_elements@.len(),
        ensures
            self@[i] == indexed_view(self.indexed_elements@[i], self.types@[i], self.identifiers@[i]@),
            self@.len() == self.indexed_elements@.len(),
    {
    }

    /// Build the search index from raw elements.
    pub fn build(elements: &[Element]) -> (index: SearchIndex)
        ensures
            index@.len() == elements@.len(),
            forall|i: int| 0 <= i < elements@.len() ==> #[trigger] index@[i] == entry_of(elements@[i]@),
    {
        let n = elements.len();
        let mut indexed_elements: Vec<IndexedElement> = Vec::new();
        let mut identifiers: Vec<String> = Vec::new();
        let mut types: Vec<ElementType> = Vec::new();
        for index in 0..n
            invariant
                n == elements@.len(),
                indexed_elements@.len() == index,
                identifiers@.len() == index,
                types@.len() == index,
                forall|i: int| 0 <= i < index ==> (#[trigger] indexed_elements@[i]).index == i,
                forall|i: int| 0 <= i < index ==> strings_view((#[trigger] indexed_elements@[i]).tokens@).no_duplicates(),
                forall|i: int|
                    0 <= i < index ==> #[trigger] indexed_view(indexed_elements@[i], types@[i], identifiers@[i]@)
                        == entry_of(elements@[i]@),
        {
            let element = &elements[index];
            let identifier_lower = to_lowercase(element.element_identifier.as_str());
            let title_lower = to_lowercase(element.title.as_str());
            let text_lower = to_lowercase(element.text.as_str());
            let mut tokens: Vec<String> = Vec::new();
            assert(strings_view(tokens@) =~= Seq::<Seq<char>>::empty());
            assert(strings_view(tokens@).to_set() =~= Set::<Seq<char>>::empty());
            let w1 = tokenize(identifier_lower.as_str());
            add_tokens(&mut tokens, w1.as_slice());
            let w2 = tokenize(title_lower.as_str());
            add_tokens(&mut tokens, w2.as_slice());
            let w3 = tokenize(text_lower.as_str());
            add_tokens(&mut tokens, w3.as_slice());
            assert(strings_view(tokens@).to_set() =~= token_set(
                identifier_lower@,
                title_lower@,
                text_lower@,
            ));
            let ie = IndexedElement { index, identifier_lower, title_lower, text_lower, tokens };
            assert(indexed_view(ie, element.element_type, element.element_identifier@) == entry_of(element@));
            indexed_elements.push(ie);
            identifiers.push(element.element_identifier.clone());
            types.push(element.element_type);
        }
        let mut by_type: Vec<Vec<usize>> = Vec::new();
        let mut type_counts: Vec<usize> = Vec::new();
        let ghost entries = Seq::new(
            indexed_elements@.len(),
            |i: int| indexed_view(indexed_elements@[i], types@[i], identifiers@[i]@),
        );
        for k in 0..ELEMENT_TYPE_COUNT
            invariant
                n == indexed_elements@.len(),
                n == types@.len(),
                n == identifiers@.len(),
                entries == Seq::new(
                    indexed_elements@.len(),
                    |i: int| indexed_view(indexed_elements@[i], types@[i], identifiers@[i]@),
                ),
                by_type@.len() == k,
                type_counts@.len() == k,
                forall|j: int| 0 <= j < k ==> (#[trigger] by_type@[j])@ == indices_meeting(
                    entries,
                    n as nat,
                    Criterion::OfType(type_at_ordinal(j as nat)),
                ),
                forall|j: int| 0 <= j < k ==> #[trigger] type_counts@[j] == by_type@[j]@.len(),
        {
            let t = type_from_ordinal(k);
            let mut list: Vec<usize> = Vec::new();
            for j in 0..n
                invariant
                    n == types@.len(),
                    n == indexed_elements@.len(),
                    entries == Seq::new(
                        indexed_elements@.len(),
                        |i: int| indexed_view(indexed_elements@[i], types@[i], identifiers@[i]@),
                    ),
                    t == type_at_ordinal(k as nat),
                    list@ == indices_meeting(entries, j as nat, Criterion::OfType(t)),
            {
                assert(entries[j as int].element_type == types@[j as int]);
                if types[j] == t {
                    list.push(j);
                }
            }
            type_counts.push(list.len());
            by_type.push(list);
        }
        SearchIndex { indexed_elements, identifiers, types, by_type, type_counts }
    }

    /// Fast lookup by identifier: the position of the last element with
    /// exactly this identifier.
    pub fn get_by_identifier(&self, id: &str) -> (r: Option<usize>)
        ensures
            match last_with_identifier(self@, id@) {
                Some(i) => r is Some && r.unwrap() as nat == i,
                None => r is None,
            },
    {
        proof {
            use_type_invariant(self);
        }
        let key = id.to_owned();
        let mut found: Option<usize> = None;
        let n = self.identifiers.len();
        for i in 0..n
            invariant
                n == self.identifiers@.len(),
                n == self.indexed_elements@.len(),
                n <= usize::MAX,
                key@ == id@,
                match last_with_identifier(self@.take(i as int), id@) {
                    Some(k) => found is Some && found.unwrap() as nat == k,
                    None => found is None,
                },
        {
            proof {
                assert(self@.take(i + 1).drop_last() =~= self@.take(i as int));
                assert(self@.take(i + 1).last() == self@[i as int]);
                self.lemma_entry(i as int);
            }
            if self.identifiers[i] == key {
                found = Some(i);
            }
        }
        assert(self@.take(n as int) =~= self@);
        found
    }

    /// All positions of elements of a given kind, in increasing order.
    pub fn get_by_type(&self, element_type: ElementType) -> (r: &[usize])
        ensures
            r@ == indices_meeting(self@, self@.len(), Criterion::OfType(element_type)),
    {
        proof {
            use_type_invariant(self);
            lemma_type_at_ordinal(element_type);
        }
        let k = element_type.ordinal();
        self.by_type[k].as_slice()
    }

    /// Number of elements of a given kind.
    pub fn count_by_type(&self, element_type: ElementType) -> (r: usize)
        ensures
            r == indices_meeting(self@, self@.len(), Criterion::OfType(element_type)).len(),
    {
        proof {
            use_type_invariant(self);
            lemma_type_at_ordinal(element_type);
        }
        let k = element_type.ordinal();
        self.type_counts[k]
    }

    /// The words of entry `i`, each once.
    pub fn words_of(&self, i: usize) -> (r: &[String])
        requires
            i < self@.len(),
        ensures
            strings_view(r@).no_duplicates(),
            strings_view(r@).to_set() == self@[i as int].tokens,
    {
        proof {
            use_type_invariant(self);
            self.lemma_entry(i as int);
        }
        self.indexed_elements[i].tokens.as_slice()
    }

    /// Number of indexed elements.
    pub fn len(&self) -> (r: usize)
        ensures
            r == self@.len(),
    {
        self.indexed_elements.len()
    }

    /// Whether element `i` passes the kind filter.
    fn passes(&self, i: usize, filter: Option<ElementType>) -> (b: bool)
        requires
            i < self@.len(),
        ensures
            b == passes_filter(self@[i as int], filter),
    {
        proof {
            use_type_invariant(self);
            self.lemma_entry(i as int);
        }
        match filter {
            Some(t) => self.types[i] == t,
            None => true,
        }
    }

    /// Whether element `i` has the word `w`.
    fn has_word(&self, i: usize, w: &String) -> (b: bool)
        requires
            i < self@.len(),
        ensures
            b == self@[i as int].tokens.contains(w@),
    {
        proof {
            use_type_invariant(self);
            self.lemma_entry(i as int);
        }
        let tokens = &self.indexed_elements[i].tokens;
        let m = tokens.len();
        assert(self@[i as int].tokens == strings_view(tokens@).to_set());
        for k in 0..m
            invariant
                m == tokens@.len(),
                i < self@.len(),
                self@[i as int].tokens == strings_view(tokens@).to_set(),
                forall|j: int| 0 <= j < k ==> tokens@[j]@ != w@,
        {
            if tokens[k] == *w {
                assert(strings_view(tokens@)[k as int] == w@);
                assert(strings_view(tokens@).contains(w@));
                assert(strings_view(tokens@).to_set().contains(w@));
                return true;
            }
        }
        assert(!strings_view(tokens@).contains(w@));
        false
    }

    /// Whether one of the lowercase fields of element `i` contains `q`.
    fn has_text(&self, i: usize, q: &Vec<char>) -> (b: bool)
        requires
            i < self@.len(),
        ensures
            b == (seq_contains(self@[i as int].identifier_lower, q@) || seq_contains(
                self@[i as int].title_lower,
                q@,
            ) || seq_contains(self@[i as int].text_lower, q@)),
    {
        proof {
            use_type_invariant(self);
            self.lemma_entry(i as int);
        }
        let ie = &self.indexed_elements[i];
        let a = chars_of(ie.identifier_lower.as_str());
        if chars_contain(a.as_slice(), q.as_slice()) {
            return true;
        }
        let b = chars_of(ie.title_lower.as_str());
        if chars_contain(b.as_slice(), q.as_slice()) {
            return true;
        }
        let c = chars_of(ie.text_lower.as_str());
        chars_contain(c.as_slice(), q.as_slice())
    }

    /// Search with a query that is already lowercase.
    pub fn search_lowercase(&self, query_lower: &str, type_filter: Option<ElementType>) -> (r: Vec<usize>)
        ensures
            r@ == search_results(self@, query_lower@, type_filter),
    {
        proof {
            use_type_invariant(self);
        }
        let n = self.indexed_elements.len();
        assert(n == self@.len());
        let words = tokenize(query_lower);
        let ghost wv = strings_view(words@);
        if words.len() == 1 {
            let w = &words[0];
            assert(wv[0] == w@);
            let ghost c = Criterion::HasWord(type_filter, w@);
            let mut results: Vec<usize> = Vec::new();
            for i in 0..n
                invariant
                    n == self@.len(),
                    c == Criterion::HasWord(type_filter, w@),
                    results@ == indices_meeting(self@, i as nat, c),
            {
                if self.passes(i, type_filter) && self.has_word(i, w) {
                    results.push(i);
                }
            }
            if results.len() > 0 {
                return results;
            }
        }
        let q = chars_of(query_lower);
        let ghost c = Criterion::HasText(type_filter, query_lower@);
        let mut results: Vec<usize> = Vec::new();
        for i in 0..n
            invariant
                n == self@.len(),
                q@ == query_lower@,
                c == Criterion::HasText(type_filter, query_lower@),
                results@ == indices_meeting(self@, i as nat, c),
        {
            if self.passes(i, type_filter) && self.has_text(i, &q) {
                results.push(i);
            }
        }
        results
    }

    /// Search using the inverted index for whole-word matches, falling back to
    /// substring search; the query is compared in lowercase.
    pub fn search(&self, query: &str, type_filter: Option<ElementType>) -> (r: Vec<usize>)
        ensures
            r@ == search_results(self@, unicode_lowercase(query@), type_filter),
    {
        let q = to_lowercase(query);
        self.search_lowercase(q.as_str(), type_filter)
    }
}

/// Search results lie in range, pass the kind filter, and come in
/// increasing order.
pub proof fn lemma_search_results(entries: Seq<EntryView>, query_lower: Seq<char>, filter: Option<ElementType>)
    requires
        entries.len() <= usize::MAX,
    ensures
        forall|k: int|
            0 <= k < search_results(entries, query_lower, filter).len() ==> {
                let i = #[trigger] search_results(entries, query_lower, filter)[k];
                i < entries.len() && passes_filter(entries[i as int], filter)
            },
        forall|a: int, b: int|
            0 <= a < b < search_results(entries, query_lower, filter).len() ==> search_results(
                entries,
                query_lower,
                filter,
            )[a] < search_results(entries, query_lower, filter)[b],
{
    let r = search_results(entries, query_lower, filter);
    let words = tokenize_spec(query_lower);
    let c = if words.len() == 1 && indices_meeting(entries, entries.len(), Criterion::HasWord(filter, words[0])).len() > 0 {
        Criterion::HasWord(filter, words[0])
    } else {
        Criterion::HasText(filter, query_lower)
    };
    assert(r == indices_meeting(entries, entries.len(), c));
    lemma_indices_meeting_bounded(entries, entries.len(), c);
    assert forall|k: int| 0 <= k < r.len() implies {
        let i = #[trigger] r[k];
        i < entries.len() && passes_filter(entries[i as int], filter)
    } by {
        let i = r[k];
        assert(r.contains(i));
        lemma_indices_meeting_contains(entries, entries.len(), c, i as int);
    }
}

/// The positions of a kind among the first `n` entries are as many as the
/// elements of that kind among the first `n` elements.
proof fn lemma_type_count_prefix(
    entries: Seq<EntryView>,
    es: Seq<crate::model::ElementView>,
    t: ElementType,
    n: nat,
)
    requires
        entries.len() == es.len(),
        n <= es.len(),
        forall|i: int| 0 <= i < es.len() ==> #[trigger] entries[i] == entry_of(es[i]),
    ensures
        indices_meeting(entries, n, Criterion::OfType(t)).len() == es.take(n as int).filter(
            |e: crate::model::ElementView| e.element_type == t,
        ).len(),
    decreases n,
{
    let pred = |e: crate::model::ElementView| e.element_type == t;
    if n == 0 {
        assert(es.take(0) =~= Seq::<crate::model::ElementView>::empty());
        reveal(Seq::filter);
    } else {
        lemma_type_count_prefix(entries, es, t, (n - 1) as nat);
        assert(es.take(n as int) =~= es.take(n - 1).push(es[n - 1]));
        es.take(n - 1).lemma_filter_len_push(pred, es[n - 1]);
        assert(entries[n - 1] == entry_of(es[n - 1]));
    }
}

/// The number of positions an index lists for a kind (what `count_by_type`
/// returns) is the number of elements of that kind.
pub proof fn lemma_count_by_type(entries: Seq<EntryView>, es: Seq<crate::model::ElementView>, t: ElementType)
    requires
        entries.len() == es.len(),
        forall|i: int| 0 <= i < es.len() ==> #[trigger] entries[i] == entry_of(es[i]),
    ensures
        indices_meeting(entries, entries.len(), Criterion::OfType(t)).len() == es.filter(
            |e: crate::model::ElementView| e.element_type == t,
        ).len(),
{
    lemma_type_count_prefix(entries, es, t, es.len());
    assert(es.take(es.len() as int) =~= es);
}

} // verus!
