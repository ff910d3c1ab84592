//! Serving `[offset, offset + limit)` of a paged bucket: which pages to read,
//! and how to cut the window out of what they hold.

use vstd::prelude::*;

use crate::assemble::elements_view;
use crate::error::CoreError;
use crate::kv::ingest::{page_count_of, page_items};
use crate::kv::keys::{PageManifest, ELEMENTS_PER_PAGE};
use crate::model::{key_text, DocumentKey, Element, ElementView};
use crate::response::PaginatedResponse;
use crate::text::concat2;

verus! {

/// The pages that hold a window, and where the window starts in them.
#[derive(Debug, Clone)]
pub struct PageSpan {
    /// First page to read.
    pub first_page: usize,
    /// Last page to read (inclusive).
    pub last_page: usize,
    /// Position of the window's first item within the pages read.
    pub local_start: usize,
    /// Number of items in the window.
    pub take: usize,
}

/// The smaller of two integers.
pub open spec fn min_int(a: int, b: int) -> int {
    if a <= b { a } else { b }
}

/// The page size used for arithmetic: at least one.
pub open spec fn effective_page_size(m: PageManifest) -> int {
    if m.page_size == 0 { 1 } else { m.page_size as int }
}

/// Start of the window, clamped to the bucket.
pub open spec fn window_start(m: PageManifest, offset: int) -> int {
    min_int(offset, m.total as int)
}

/// End of the window, clamped to the bucket.
pub open spec fn window_end(m: PageManifest, offset: int, limit: int) -> int {
    min_int(offset + limit, m.total as int)
}

/// The pages to read for `[offset, offset + limit)`, or `None` when the
/// window holds nothing.
pub fn page_span(manifest: &PageManifest, offset: usize, limit: usize) -> (r: Option<PageSpan>)
    ensures
        r is None <==> window_start(*manifest, offset as int) >= window_end(*manifest, offset as int, limit as int),
        r matches Some(sp) ==> {
            let ps = effective_page_size(*manifest);
            let start = window_start(*manifest, offset as int);
            let end = window_end(*manifest, offset as int, limit as int);
            &&& sp.first_page == start / ps
            &&& sp.last_page == (end - 1) / ps
            &&& sp.local_start == start - sp.first_page * ps
            &&& sp.take == end - start
        },
{
    let page_size = if manifest.page_size == 0 { 1 } else { manifest.page_size };
    let start = if offset <= manifest.total { offset } else { manifest.total };
    let end = if limit <= manifest.total && offset <= manifest.total - limit {
        offset + limit
    } else {
        manifest.total
    };
    if start >= end {
        return None;
    }
    let first_page = start / page_size;
    let last_page = (end - 1) / page_size;
    assert(first_page * page_size <= start) by (nonlinear_arith)
        requires
            first_page == start / page_size,
            page_size > 0,
    ;
    Some(PageSpan { first_page, last_page, local_start: start - first_page * page_size, take: end - start })
}

/// The items of all pages, in order.
pub open spec fn flatten(pages: Seq<Seq<ElementView>>) -> Seq<ElementView>
    decreases pages.len(),
{
    if pages.len() == 0 {
        Seq::empty()
    } else {
        flatten(pages.drop_last()) + pages.last()
    }
}

/// The views of a list of pages.
pub open spec fn pages_view(pages: Seq<Vec<Element>>) -> Seq<Seq<ElementView>> {
    pages.map_values(|p: Vec<Element>| elements_view(p@))
}

/// `take` items of the pages read, from `local_start` on (fewer where the
/// pages run out).
pub fn collect_span(pages: Vec<Vec<Element>>, local_start: usize, take: usize) -> (r: Vec<Element>)
    ensures
        ({
            let all = flatten(pages_view(pages@));
            elements_view(r@) == all.subrange(
                min_int(local_start as int, all.len() as int),
                min_int(local_start + take, all.len() as int),
            )
        }),
{
    let ghost pv = pages_view(pages@);
    let mut all: Vec<Element> = Vec::new();
    let n = pages.len();
    for i in 0..n
        invariant
            n == pages@.len(),
            pv == pages_view(pages@),
            elements_view(all@) == flatten(pv.take(i as int)),
    {
        let page = &pages[i];
        assert(pv.take(i + 1).drop_last() =~= pv.take(i as int));
        assert(pv[i as int] == elements_view(page@));
        let m = page.len();
        let ghost before = elements_view(all@);
        for j in 0..m
            invariant
                m == page@.len(),
                elements_view(all@) == before + elements_view(page@).take(j as int),
        {
            let ghost b = elements_view(all@);
            all.push(page[j].duplicate());
            assert(elements_view(all@) =~= b.push(page@[j as int]@));
            assert(elements_view(page@).take(j + 1) =~= elements_view(page@).take(j as int).push(page@[j as int]@));
        }
        assert(elements_view(page@).take(m as int) =~= elements_view(page@));
    }
    assert(pv.take(n as int) =~= pv);
    let len = all.len();
    let from = if local_start <= len { local_start } else { len };
    let to = if take <= len - from { from + take } else { len };
    let mut r: Vec<Element> = Vec::new();
    for k in from..to
        invariant
            from <= to <= len,
            len == all@.len(),
            elements_view(r@) == elements_view(all@).subrange(from as int, k as int),
    {
        let ghost b = elements_view(r@);
        r.push(all[k].duplicate());
        assert(elements_view(r@) =~= b.push(all@[k as int]@));
        assert(elements_view(all@).subrange(from as int, k + 1) =~= elements_view(all@).subrange(
            from as int,
            k as int,
        ).push(all@[k as int]@));
    }
    r
}

/// The page served when the bucket has a manifest: the items read, the
/// bucket's total, and whether items remain past the window.
pub fn span_response(manifest: &PageManifest, data: Vec<Element>, offset: usize, limit: usize) -> (r: PaginatedResponse<Element>)
    ensures
        elements_view(r.data@) == elements_view(data@),
        r.total == manifest.total,
        r.limit == limit,
        r.offset == offset,
        r.has_more == (offset + limit < manifest.total),
{
    let has_more = offset < manifest.total && limit < manifest.total - offset;
    PaginatedResponse { data, total: manifest.total, limit, offset, has_more }
}

/// The answer when a bucket has no manifest: an empty page when the document
/// is loaded (a kind with no elements), else not found.
pub fn missing_bucket(key: DocumentKey, doc_loaded: bool, offset: usize, limit: usize) -> (r: Result<
    PaginatedResponse<Element>,
    CoreError,
>)
    ensures
        doc_loaded ==> (r matches Ok(p) && p.data@.len() == 0 && p.total == 0 && p.limit == limit
            && p.offset == offset && !p.has_more),
        !doc_loaded ==> (r matches Err(CoreError::NotFound(m)) && m@ == "Document "@ + key_text(key)
            + " not loaded"@),
{
    if doc_loaded {
        Ok(PaginatedResponse { data: Vec::new(), total: 0, limit, offset, has_more: false })
    } else {
        let k = key.to_string();
        let mut m = concat2("Document ", k.as_str());
        m.append(" not loaded");
        Err(CoreError::NotFound(m))
    }
}

/// `k` consecutive pages of `items`, from page `a` on.
pub open spec fn pages_from(items: Seq<ElementView>, a: int, k: nat) -> Seq<Seq<ElementView>> {
    Seq::new(k, |j: int| page_items(items, a + j))
}

/// Consecutive stored pages hold consecutive items.
proof fn lemma_flatten_pages(items: Seq<ElementView>, a: nat, k: nat)
    requires
        a * ELEMENTS_PER_PAGE <= items.len(),
        k > 0 ==> (a + k - 1) * ELEMENTS_PER_PAGE < items.len(),
    ensures
        flatten(pages_from(items, a as int, k)) == items.subrange(
            a * ELEMENTS_PER_PAGE,
            min_int((a + k) * ELEMENTS_PER_PAGE, items.len() as int),
        ),
    decreases k,
{
    let ps = pages_from(items, a as int, k);
    if k == 0 {
        assert(items.subrange(a * ELEMENTS_PER_PAGE, a * ELEMENTS_PER_PAGE) =~= Seq::<ElementView>::empty());
    } else {
        lemma_flatten_pages(items, a, (k - 1) as nat);
        assert(ps.drop_last() =~= pages_from(items, a as int, (k - 1) as nat));
        assert(ps.last() == page_items(items, a + k - 1));
        assert(flatten(ps) =~= items.subrange(
            a * ELEMENTS_PER_PAGE,
            min_int((a + k) * ELEMENTS_PER_PAGE, items.len() as int),
        ));
    }
}

/// Reading back a window: for items stored by `write_pages`, the pages that
/// `page_span` names exist, and cutting them as `collect_span` does gives
/// exactly the items `[offset, offset + limit)`, clamped to the bucket.
pub proof fn lemma_span_reads_window(items: Seq<ElementView>, offset: nat, limit: nat)
    requires
        items.len() <= usize::MAX,
    ensures
        ({
            let m = PageManifest {
                total: items.len() as usize,
                page_size: ELEMENTS_PER_PAGE,
                page_count: page_count_of(items.len()) as usize,
            };
            let ps = effective_page_size(m);
            let start = window_start(m, offset as int);
            let end = window_end(m, offset as int, limit as int);
            let first = start / ps;
            let last = (end - 1) / ps;
            let all = flatten(pages_from(items, first, (last - first + 1) as nat));
            let ls = start - first * ps;
            start < end ==> {
                &&& last < page_count_of(items.len())
                &&& all.subrange(min_int(ls, all.len() as int), min_int(ls + (end - start), all.len() as int))
                    == items.subrange(start, end)
            }
        }),
{
    let n = items.len();
    let m = PageManifest { total: n as usize, page_size: ELEMENTS_PER_PAGE, page_count: page_count_of(n) as usize };
    let ps = effective_page_size(m);
    let start = window_start(m, offset as int);
    let end = window_end(m, offset as int, limit as int);
    if start < end {
        let first = start / ps;
        let last = (end - 1) / ps;
        assert(ps == 100);
        assert(first * 100 <= start);
        assert(last * 100 <= end - 1);
        assert(end - 1 < (last + 1) * 100);
        assert(first <= last);
        assert(last < page_count_of(n));
        let k = (last - first + 1) as nat;
        lemma_flatten_pages(items, first as nat, k);
        let all = flatten(pages_from(items, first, k));
        let ls = start - first * ps;
        assert(all == items.subrange(first * 100, min_int((last + 1) * 100, n as int)));
        assert(all.subrange(ls, ls + (end - start)) =~= items.subrange(start, end));
    }
}

} // verus!
