use vstd::prelude::*;
use crate::state::opt_view;

verus! {

/// The largest page the relationship endpoint hands out; every request asks
/// for it, to keep round trips few.
pub const PAGE_LIMIT: u8 = 100;

/// One page of a cursor-paginated listing: its subjects in order, and the
/// cursor of the next page (`None` on the last page).
#[derive(Clone, Debug)]
pub struct Batch {
    pub subjects: Vec<String>,
    pub cursor: Option<String>,
}

pub struct BatchView {
    pub subjects: Seq<Seq<char>>,
    pub cursor: Option<Seq<char>>,
}

impl View for Batch {
    type V = BatchView;

    open spec fn view(&self) -> BatchView {
        BatchView { subjects: self.subjects@.map_values(|s: String| s@), cursor: opt_view(self.cursor) }
    }
}

/// One enumerated subject, with the cursor that resumes the listing right
/// after it. Only the last subject of a page has one: the page's next cursor.
/// Resuming after a subject in the middle of a page is not possible, so those
/// carry `None`.
#[derive(Clone, Debug)]
pub struct Item {
    pub subject: String,
    pub cursor: Option<String>,
}

pub struct ItemView {
    pub subject: Seq<char>,
    pub cursor: Option<Seq<char>>,
}

impl View for Item {
    type V = ItemView;

    open spec fn view(&self) -> ItemView {
        ItemView { subject: self.subject@, cursor: opt_view(self.cursor) }
    }
}

/// The request for the next page.
#[derive(Clone, Debug)]
pub struct PageRequest {
    pub subject: String,
    pub cursor: Option<String>,
    pub limit: u8,
}

pub open spec fn items_view(s: Seq<Item>) -> Seq<ItemView> {
    s.map_values(|i: Item| i@)
}

pub open spec fn batches_view(s: Seq<Batch>) -> Seq<BatchView> {
    s.map_values(|b: Batch| b@)
}

/// The cursor that the subject at `j` of a page carries: the page's next
/// cursor for its last subject, none for the others.
pub open spec fn item_cursor(b: BatchView, j: int) -> Option<Seq<char>> {
    if j == b.subjects.len() - 1 {
        b.cursor
    } else {
        None
    }
}

/// The items of one page, in order.
pub open spec fn page_items(b: BatchView) -> Seq<ItemView> {
    Seq::new(b.subjects.len(), |j: int| ItemView { subject: b.subjects[j], cursor: item_cursor(b, j) })
}

/// The items of consecutive pages, concatenated in order.
pub open spec fn enumeration(pages: Seq<BatchView>) -> Seq<ItemView>
    decreases pages.len(),
{
    if pages.len() == 0 {
        Seq::empty()
    } else {
        enumeration(pages.drop_last()) + page_items(pages.last())
    }
}

/// The items a walk yields over the pages the listing hands out.
pub open spec fn walk_items(pages: Seq<BatchView>) -> Seq<ItemView> {
    enumeration(pages.take(walked(pages) as int))
}

/// No two pages name the same next page.
pub open spec fn cursors_distinct(pages: Seq<BatchView>) -> bool {
    forall|a: int, b: int|
        0 <= a < pages.len() && 0 <= b < pages.len() && a != b && (#[trigger] pages[a]).cursor.is_some()
            ==> pages[a].cursor != (#[trigger] pages[b]).cursor
}

/// How many pages a walk reads: up to and including the first page without a
/// next cursor, or all of them.
pub open spec fn walked(pages: Seq<BatchView>) -> nat
    decreases pages.len(),
{
    if pages.len() == 0 {
        0
    } else if pages[0].cursor.is_none() {
        1
    } else {
        1 + walked(pages.drop_first())
    }
}

pub fn clone_opt(o: &Option<String>) -> (r: Option<String>)
    ensures
        r == *o,
{
    match o {
        Some(s) => Some(s.clone()),
        None => None,
    }
}

/// Flattens one page into items; the last one carries the page's cursor.
pub fn batch_items(batch: &Batch) -> (r: Vec<Item>)
    ensures
        items_view(r@) == page_items(batch@),
{
    let mut r: Vec<Item> = Vec::new();
    let mut i: usize = 0;
    while i < batch.subjects.len()
        invariant
            i <= batch.subjects.len(),
            r@.len() == i,
            items_view(r@) == page_items(batch@).take(i as int),
        decreases batch.subjects.len() - i,
    {
        let cursor = if i + 1 == batch.subjects.len() {
            clone_opt(&batch.cursor)
        } else {
            None
        };
        let item = Item { subject: batch.subjects[i].clone(), cursor };
        r.push(item);
        i += 1;
        assert(items_view(r@) =~= page_items(batch@).take(i as int));
    }
    assert(page_items(batch@).take(i as int) =~= page_items(batch@));
    r
}

/// The state of a paginated listing of one subject's relationships.
pub struct Paginator {
    subject: String,
    cursor: Option<String>,
    done: bool,
}

pub struct PaginatorView {
    pub subject: Seq<char>,
    pub cursor: Option<Seq<char>>,
    pub done: bool,
}

impl View for Paginator {
    type V = PaginatorView;

    closed spec fn view(&self) -> PaginatorView {
        PaginatorView { subject: self.subject@, cursor: opt_view(self.cursor), done: self.done }
    }
}

impl Paginator {
    /// Starts a listing at `start` (`None`: from the beginning).
    pub fn new(subject: String, start: Option<String>) -> (r: Self)
        ensures
            r@ == (PaginatorView { subject: subject@, cursor: opt_view(start), done: false }),
    {
        Paginator { subject, cursor: start, done: false }
    }

    /// The next page to fetch, or `None` once the last page was accepted.
    pub fn next_request(&self) -> (r: Option<PageRequest>)
        ensures
            r.is_none() <==> self@.done,
            r matches Some(q) ==> q.subject@ == self@.subject && opt_view(q.cursor) == self@.cursor
                && q.limit == PAGE_LIMIT,
    {
        if self.done {
            None
        } else {
            Some(PageRequest { subject: self.subject.clone(), cursor: clone_opt(&self.cursor), limit: PAGE_LIMIT })
        }
    }

    /// Takes the page that answered `next_request` and yields its items, the
    /// last one carrying the page's next cursor. The listing ends with a page
    /// that has no next cursor.
    pub fn accept(&mut self, batch: &Batch) -> (r: Vec<Item>)
        requires
            !old(self)@.done,
        ensures
            items_view(r@) == page_items(batch@),
            final(self)@ == (PaginatorView {
                subject: old(self)@.subject,
                cursor: batch@.cursor,
                done: batch@.cursor.is_none(),
            }),
    {
        self.cursor = clone_opt(&batch.cursor);
        self.done = batch.cursor.is_none();
        batch_items(batch)
    }
}

/// What a walk over a listing did: the items it yielded and the requests it
/// made, the `k`-th answered by the `k`-th page.
pub struct Walk {
    pub items: Vec<Item>,
    pub requests: Vec<PageRequest>,
}

/// The requests of a walk of `subject` from `start`: the first asks at
/// `start`, each later one at the next cursor of the page before.
pub open spec fn requests_follow(
    reqs: Seq<PageRequest>,
    subject: Seq<char>,
    start: Option<Seq<char>>,
    pages: Seq<BatchView>,
) -> bool {
    forall|k: int|
        0 <= k < reqs.len() ==> (#[trigger] reqs[k]).subject@ == subject && reqs[k].limit
            == PAGE_LIMIT && opt_view(reqs[k].cursor) == (if k == 0 {
            start
        } else {
            pages[k - 1].cursor
        })
}

/// Walks a listing from `start`, where the pages come in the order given, one
/// request at a time, and collects every item the walk yields.
pub fn enumerate_pages(subject: String, start: Option<String>, pages: &Vec<Batch>) -> (r: Walk)
    ensures
        items_view(r.items@) == enumeration(
            batches_view(pages@).take(walked(batches_view(pages@)) as int),
        ),
        r.requests@.len() == walked(batches_view(pages@)),
        requests_follow(r.requests@, subject@, opt_view(start), batches_view(pages@)),
{
    let ghost bv = batches_view(pages@);
    let ghost subj = subject@;
    let ghost st = opt_view(start);
    let mut pager = Paginator::new(subject, start);
    let mut out: Vec<Item> = Vec::new();
    let mut requests: Vec<PageRequest> = Vec::new();
    let mut k: usize = 0;
    while k < pages.len()
        invariant
            k <= pages.len(),
            bv == batches_view(pages@),
            requests@.len() == k,
            pager@.subject == subj,
            pager@.cursor == (if k == 0 {
                st
            } else {
                bv[k - 1].cursor
            }),
            requests_follow(requests@, subj, st, bv),
            !pager@.done <==> (k == 0 || bv[k - 1].cursor.is_some()),
            forall|j: int| 0 <= j < k - 1 ==> (#[trigger] bv[j]).cursor.is_some(),
            items_view(out@) == enumeration(bv.take(k as int)),
        ensures
            k == pages.len() || pager@.done,
        decreases pages.len() - k,
    {
        let req = match pager.next_request() {
            Some(q) => q,
            None => {
                break;
            },
        };
        requests.push(req);
        let mut items = pager.accept(&pages[k]);
        let ghost before = out@;
        out.append(&mut items);
        proof {
            assert(bv.take(k + 1).drop_last() =~= bv.take(k as int));
            assert(items_view(out@) =~= items_view(before) + page_items(bv[k as int]));
        }
        k += 1;
    }
    proof {
        lemma_walked(bv, k as nat);
    }
    Walk { items: out, requests }
}

proof fn lemma_walked(pages: Seq<BatchView>, k: nat)
    requires
        k <= pages.len(),
        forall|j: int| 0 <= j < k - 1 ==> (#[trigger] pages[j]).cursor.is_some(),
        k == pages.len() || (k > 0 && pages[k - 1].cursor.is_none()),
    ensures
        walked(pages) == k,
    decreases k,
{
    if k > 0 && pages[0].cursor.is_some() {
        let rest = pages.drop_first();
        assert forall|j: int| 0 <= j < k - 2 implies (#[trigger] rest[j]).cursor.is_some() by {
            assert(rest[j] == pages[j + 1]);
        }
        lemma_walked(rest, (k - 1) as nat);
    } else if k > 1 {
        assert(pages[0].cursor.is_some());
    }
}

/// The enumeration of pages splits at any page boundary.
pub proof fn lemma_enumeration_split(pages: Seq<BatchView>, k: int)
    requires
        0 <= k <= pages.len(),
    ensures
        enumeration(pages) == enumeration(pages.take(k)) + enumeration(pages.skip(k)),
    decreases pages.len(),
{
    if k == pages.len() {
        assert(pages.take(k) =~= pages);
        assert(pages.skip(k) =~= Seq::<BatchView>::empty());
        assert(enumeration(pages.skip(k)) =~= Seq::<ItemView>::empty());
        assert(enumeration(pages) + Seq::<ItemView>::empty() =~= enumeration(pages));
    } else {
        let dl = pages.drop_last();
        lemma_enumeration_split(dl, k);
        assert(dl.take(k) =~= pages.take(k));
        assert(pages.skip(k).drop_last() =~= dl.skip(k));
        assert(pages.skip(k).last() == pages.last());
        assert(enumeration(pages) =~= enumeration(pages.take(k)) + enumeration(pages.skip(k)));
    }
}

/// The items of a listing come page after page in their order, and each
/// carries the cursor that its page gives it: the page's next cursor for the
/// page's last subject, none for the others.
pub proof fn lemma_item_cursor(pages: Seq<BatchView>, k: int, j: int)
    requires
        0 <= k < pages.len(),
        0 <= j < pages[k].subjects.len(),
    ensures
        enumeration(pages)[enumeration(pages.take(k)).len() + j]
            == (ItemView { subject: pages[k].subjects[j], cursor: item_cursor(pages[k], j) }),
{
    lemma_enumeration_split(pages, k);
    let rest = pages.skip(k);
    lemma_enumeration_split(rest, 1);
    assert(rest.take(1).drop_last() =~= Seq::<BatchView>::empty());
    assert(rest.take(1).last() == pages[k]);
    assert(enumeration(rest.take(1).drop_last()) =~= Seq::<ItemView>::empty());
    assert(enumeration(rest.take(1)) =~= page_items(pages[k]));
    assert(enumeration(rest) == page_items(pages[k]) + enumeration(rest.skip(1)));
}

pub proof fn lemma_walked_bound(pages: Seq<BatchView>)
    ensures
        walked(pages) <= pages.len(),
    decreases pages.len(),
{
    if pages.len() > 0 {
        lemma_walked_bound(pages.drop_first());
    }
}

pub proof fn lemma_walked_skip(pages: Seq<BatchView>, k: int)
    requires
        0 <= k < pages.len(),
        forall|j: int| 0 <= j <= k ==> (#[trigger] pages[j]).cursor.is_some(),
    ensures
        walked(pages) == k + 1 + walked(pages.skip(k + 1)),
    decreases k,
{
    let rest = pages.drop_first();
    if k == 0 {
        assert(rest =~= pages.skip(1));
    } else {
        assert forall|j: int| 0 <= j <= k - 1 implies (#[trigger] rest[j]).cursor.is_some() by {
            assert(rest[j] == pages[j + 1]);
        }
        lemma_walked_skip(rest, k - 1);
        assert(rest.skip(k) =~= pages.skip(k + 1));
    }
}

/// Resuming a listing with the next cursor of page `k` yields exactly what
/// the first walk yielded after that page, as long as the pages stay the same.
pub proof fn lemma_resume_reproduces_tail(pages: Seq<BatchView>, k: int)
    requires
        0 <= k < pages.len(),
        forall|j: int| 0 <= j <= k ==> (#[trigger] pages[j]).cursor.is_some(),
    ensures
        enumeration(pages.take(walked(pages) as int)).skip(enumeration(pages.take(k + 1)).len() as int)
            == enumeration(pages.skip(k + 1).take(walked(pages.skip(k + 1)) as int)),
{
    let rest = pages.skip(k + 1);
    lemma_walked_skip(pages, k);
    lemma_walked_bound(rest);
    let whole = pages.take(walked(pages) as int);
    lemma_enumeration_split(whole, k + 1);
    assert(whole.take(k + 1) =~= pages.take(k + 1));
    assert(whole.skip(k + 1) =~= rest.take(walked(rest) as int));
    assert(enumeration(whole).skip(enumeration(pages.take(k + 1)).len() as int)
        =~= enumeration(rest.take(walked(rest) as int)));
}

proof fn lemma_locate(pages: Seq<BatchView>, i: int) -> (r: (int, int))
    requires
        0 <= i < enumeration(pages).len(),
    ensures
        0 <= r.0 < pages.len(),
        0 <= r.1 < pages[r.0].subjects.len(),
        enumeration(pages.take(r.0)).len() + r.1 == i,
    decreases pages.len(),
{
    let dl = pages.drop_last();
    if i >= enumeration(dl).len() {
        assert(pages.take(pages.len() - 1) =~= dl);
        (pages.len() - 1, i - enumeration(dl).len())
    } else {
        let r = lemma_locate(dl, i);
        assert(dl.take(r.0) =~= pages.take(r.0));
        r
    }
}

proof fn lemma_walked_prefix(pages: Seq<BatchView>, j: int)
    requires
        0 <= j < walked(pages) - 1,
    ensures
        pages[j].cursor.is_some(),
    decreases pages.len(),
{
    lemma_walked_bound(pages);
    if pages.len() > 0 && pages[0].cursor.is_some() && j > 0 {
        let rest = pages.drop_first();
        lemma_walked_prefix(rest, j - 1);
        assert(rest[j - 1] == pages[j]);
    }
}

/// Resuming a listing with the cursor that an item of a walk carried yields
/// exactly the items that the walk yielded after that item, as long as the
/// pages stay the same and no two of them name the same next page.
pub proof fn lemma_resume_after_item(pages: Seq<BatchView>, i: int, k: int)
    requires
        cursors_distinct(pages),
        0 <= k < pages.len(),
        pages[k].cursor.is_some(),
        0 <= i < walk_items(pages).len(),
        walk_items(pages)[i].cursor == pages[k].cursor,
    ensures
        walk_items(pages).skip(i + 1) == walk_items(pages.skip(k + 1)),
{
    lemma_walked_bound(pages);
    let w = walked(pages) as int;
    let whole = pages.take(w);
    let (p, j) = lemma_locate(whole, i);
    assert(whole.take(p) =~= pages.take(p));
    assert(whole[p] == pages[p]);
    lemma_item_cursor(whole, p, j);
    assert(item_cursor(pages[p], j).is_some());
    assert(j == pages[p].subjects.len() - 1);
    assert(p == k);
    assert forall|m: int| 0 <= m <= k implies (#[trigger] pages[m]).cursor.is_some() by {
        if m < k {
            lemma_walked_prefix(pages, m);
        }
    }
    lemma_resume_reproduces_tail(pages, k);
    assert(pages.take(k + 1).drop_last() =~= pages.take(k));
    assert(pages.take(k + 1).last() == pages[k]);
    assert(enumeration(pages.take(k + 1)).len() == i + 1);
}

} // verus!
