use vstd::prelude::*;
use crate::paginate::{clone_opt, items_view, Item, ItemView};
use crate::state::opt_view;

verus! {

/// Where a drain stops: the first item whose subject is the boundary, or the
/// end of the items.
pub open spec fn stop_index(items: Seq<ItemView>, boundary: Option<Seq<char>>) -> nat
    decreases items.len(),
{
    if items.len() == 0 {
        0
    } else if boundary == Some(items[0].subject) {
        0
    } else {
        1 + stop_index(items.drop_first(), boundary)
    }
}

/// The items a drain consumes and adds: all of them before the boundary.
pub open spec fn drained(items: Seq<ItemView>, boundary: Option<Seq<char>>) -> Seq<ItemView> {
    items.take(stop_index(items, boundary) as int)
}

/// The last cursor that items carry, skipping those without one.
pub open spec fn last_cursor(items: Seq<ItemView>) -> Option<Seq<char>>
    decreases items.len(),
{
    if items.len() == 0 {
        None
    } else if items.last().cursor.is_some() {
        items.last().cursor
    } else {
        last_cursor(items.drop_last())
    }
}

pub open spec fn subjects(items: Seq<ItemView>) -> Seq<Seq<char>> {
    items.map_values(|i: ItemView| i.subject)
}

pub open spec fn strings_view(s: Seq<String>) -> Seq<Seq<char>> {
    s.map_values(|x: String| x@)
}

/// The consumer of a stream of subjects headed for a list: it hands back each
/// subject to add, in order, and remembers the last cursor seen. With a
/// boundary it stops at the first item whose subject is the boundary, without
/// adding it or taking its cursor.
pub struct Drain {
    boundary: Option<String>,
    last_cursor: Option<String>,
    stopped: bool,
}

pub struct DrainView {
    pub boundary: Option<Seq<char>>,
    pub last_cursor: Option<Seq<char>>,
    pub stopped: bool,
}

impl View for Drain {
    type V = DrainView;

    closed spec fn view(&self) -> DrainView {
        DrainView {
            boundary: opt_view(self.boundary),
            last_cursor: opt_view(self.last_cursor),
            stopped: self.stopped,
        }
    }
}

impl Drain {
    /// A drain that consumes everything (`None`) or stops at `boundary`.
    pub fn new(boundary: Option<String>) -> (r: Self)
        ensures
            r@ == (DrainView { boundary: opt_view(boundary), last_cursor: None, stopped: false }),
    {
        Drain { boundary, last_cursor: None, stopped: false }
    }

    /// Takes the next item: the subject to add, or `None` when the item is the
    /// boundary, after which the drain is stopped.
    pub fn step(&mut self, item: &Item) -> (r: Option<String>)
        requires
            !old(self)@.stopped,
        ensures
            old(self)@.boundary == Some(item@.subject) ==> r.is_none()
                && final(self)@ == (DrainView { stopped: true, ..old(self)@ }),
            old(self)@.boundary != Some(item@.subject) ==> (r matches Some(s) && s@ == item@.subject)
                && final(self)@ == (DrainView {
                    last_cursor: if item@.cursor.is_some() {
                        item@.cursor
                    } else {
                        old(self)@.last_cursor
                    },
                    ..old(self)@
                }),
    {
        let at_boundary = match &self.boundary {
            Some(b) => *b == item.subject,
            None => false,
        };
        if at_boundary {
            self.stopped = true;
            None
        } else {
            if item.cursor.is_some() {
                self.last_cursor = clone_opt(&item.cursor);
            }
            Some(item.subject.clone())
        }
    }

    pub fn is_stopped(&self) -> (r: bool)
        ensures
            r == self@.stopped,
    {
        self.stopped
    }

    /// The last cursor taken so far.
    pub fn last_cursor(&self) -> (r: Option<String>)
        ensures
            opt_view(r) == self@.last_cursor,
    {
        clone_opt(&self.last_cursor)
    }
}

/// What a drain did: the subjects it added, in order, and the last cursor.
#[derive(Clone, Debug)]
pub struct DrainOutcome {
    pub added: Vec<String>,
    pub last_cursor: Option<String>,
}

proof fn lemma_stop_index(items: Seq<ItemView>, boundary: Option<Seq<char>>, i: int)
    requires
        0 <= i <= items.len(),
        forall|j: int| 0 <= j < i ==> boundary != Some((#[trigger] items[j]).subject),
        i == items.len() || boundary == Some(items[i].subject),
    ensures
        stop_index(items, boundary) == i,
    decreases i,
{
    if i > 0 {
        let rest = items.drop_first();
        assert forall|j: int| 0 <= j < i - 1 implies boundary != Some((#[trigger] rest[j]).subject) by {
            assert(rest[j] == items[j + 1]);
        }
        assert(boundary != Some(items[0].subject));
        lemma_stop_index(rest, boundary, i - 1);
    }
}

fn drain_with(items: &Vec<Item>, boundary: Option<String>) -> (r: DrainOutcome)
    ensures
        strings_view(r.added@) == subjects(drained(items_view(items@), opt_view(boundary))),
        opt_view(r.last_cursor) == last_cursor(drained(items_view(items@), opt_view(boundary))),
{
    let ghost iv = items_view(items@);
    let ghost b = opt_view(boundary);
    let mut d = Drain::new(boundary);
    let mut added: Vec<String> = Vec::new();
    let mut i: usize = 0;
    while i < items.len()
        invariant_except_break
            !d@.stopped,
        invariant
            i <= items.len(),
            iv == items_view(items@),
            d@.boundary == b,
            forall|j: int| 0 <= j < i ==> b != Some((#[trigger] iv[j]).subject),
            d@.last_cursor == last_cursor(iv.take(i as int)),
            strings_view(added@) == subjects(iv.take(i as int)),
        ensures
            d@.stopped ==> i < items.len() && b == Some(iv[i as int].subject),
            !d@.stopped ==> i == items.len(),
            forall|j: int| 0 <= j < i ==> b != Some((#[trigger] iv[j]).subject),
            d@.last_cursor == last_cursor(iv.take(i as int)),
            strings_view(added@) == subjects(iv.take(i as int)),
        decreases items.len() - i,
    {
        match d.step(&items[i]) {
            Some(s) => {
                proof {
                    assert(iv.take(i + 1).drop_last() =~= iv.take(i as int));
                    assert(iv.take(i + 1).last() == iv[i as int]);
                }
                let ghost before = added@;
                added.push(s);
                proof {
                    assert(strings_view(added@) =~= strings_view(before).push(s@));
                    assert(subjects(iv.take(i + 1)) =~= subjects(iv.take(i as int)).push(iv[i as int].subject));
                }
                i += 1;
            },
            None => {
                break;
            },
        }
    }
    proof {
        lemma_stop_index(iv, b, i as int);
    }
    DrainOutcome { added, last_cursor: d.last_cursor() }
}

/// Consumes every item, adding each subject in order; returns the last
/// cursor seen (`None` if no item carried one).
pub fn drain(items: &Vec<Item>) -> (r: DrainOutcome)
    ensures
        strings_view(r.added@) == subjects(items_view(items@)),
        opt_view(r.last_cursor) == last_cursor(items_view(items@)),
{
    let r = drain_with(items, None);
    proof {
        lemma_stop_index(items_view(items@), None, items@.len() as int);
        assert(drained(items_view(items@), None) =~= items_view(items@));
    }
    r
}

/// Consumes items up to, and not including, the first whose subject is
/// `boundary`, adding each subject in order; returns the last cursor seen
/// before the boundary.
pub fn drain_until(items: &Vec<Item>, boundary: &String) -> (r: DrainOutcome)
    ensures
        strings_view(r.added@) == subjects(drained(items_view(items@), Some(boundary@))),
        opt_view(r.last_cursor) == last_cursor(drained(items_view(items@), Some(boundary@))),
{
    drain_with(items, Some(boundary.clone()))
}

proof fn lemma_stop_index_props(items: Seq<ItemView>, boundary: Option<Seq<char>>)
    ensures
        stop_index(items, boundary) <= items.len(),
        forall|j: int|
            0 <= j < stop_index(items, boundary) ==> boundary != Some((#[trigger] items[j]).subject),
        stop_index(items, boundary) < items.len() ==> boundary == Some(
            items[stop_index(items, boundary) as int].subject,
        ),
    decreases items.len(),
{
    if items.len() > 0 && boundary != Some(items[0].subject) {
        let rest = items.drop_first();
        lemma_stop_index_props(rest, boundary);
        assert forall|j: int|
            0 <= j < stop_index(items, boundary) implies boundary != Some((#[trigger] items[j]).subject) by {
            if j > 0 {
                assert(items[j] == rest[j - 1]);
            }
        }
    }
}

/// A drain without a boundary consumes everything.
pub proof fn lemma_drain_all(items: Seq<ItemView>)
    ensures
        stop_index(items, None) == items.len(),
{
    lemma_stop_index(items, None, items.len() as int);
}

/// A drain that stops at a boundary adds neither the boundary nor anything
/// after its first occurrence; what it adds is a prefix of the items.
pub proof fn lemma_drain_until_stops_at_boundary(items: Seq<ItemView>, boundary: Seq<char>)
    ensures
        forall|i: int|
            0 <= i < drained(items, Some(boundary)).len() ==> (#[trigger] drained(
                items,
                Some(boundary),
            )[i]).subject != boundary,
        forall|k: int|
            0 <= k < items.len() && (#[trigger] items[k]).subject == boundary ==> drained(
                items,
                Some(boundary),
            ).len() <= k,
        drained(items, Some(boundary)) == items.take(drained(items, Some(boundary)).len() as int),
{
    lemma_stop_index_props(items, Some(boundary));
}

/// When the boundary is not among the items, a drain that stops at it is the
/// same as a drain of everything.
pub proof fn lemma_drain_until_absent_is_drain(items: Seq<ItemView>, boundary: Seq<char>)
    requires
        forall|i: int| 0 <= i < items.len() ==> (#[trigger] items[i]).subject != boundary,
    ensures
        drained(items, Some(boundary)) == drained(items, None),
        drained(items, None) == items,
{
    lemma_stop_index(items, Some(boundary), items.len() as int);
    lemma_stop_index(items, None, items.len() as int);
    assert(items.take(items.len() as int) =~= items);
}

/// When the boundary first occurs at `k`, a drain that stops at it adds
/// exactly the subjects before `k`, in order.
pub proof fn lemma_drain_until_adds_prefix(items: Seq<ItemView>, boundary: Seq<char>, k: int)
    requires
        0 <= k < items.len(),
        items[k].subject == boundary,
        forall|j: int| 0 <= j < k ==> (#[trigger] items[j]).subject != boundary,
    ensures
        subjects(drained(items, Some(boundary))) == subjects(items.take(k)),
{
    lemma_stop_index(items, Some(boundary), k);
}

/// A last cursor is the cursor of one of the items.
pub proof fn lemma_last_cursor_witness(items: Seq<ItemView>) -> (i: int)
    requires
        last_cursor(items).is_some(),
    ensures
        0 <= i < items.len(),
        items[i].cursor == last_cursor(items),
    decreases items.len(),
{
    if items.last().cursor.is_some() {
        items.len() - 1
    } else {
        let i = lemma_last_cursor_witness(items.drop_last());
        assert(items.drop_last()[i] == items[i]);
        i
    }
}

} // verus!
