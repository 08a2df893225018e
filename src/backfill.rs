use vstd::prelude::*;
use crate::paginate::{
    batches_view, cursors_distinct, enumerate_pages, lemma_resume_after_item, requests_follow,
    walk_items, walked, Batch, BatchView, PageRequest,
};
use crate::sink::{
    drain, drain_until, drained, last_cursor, lemma_last_cursor_witness, strings_view, subjects,
};
use crate::state::{opt_view, State, StateView};

verus! {

/// Where a backfill starts and where it stops.
pub struct BackfillPlan {
    /// The cursor to resume from (`None`: the start of the listing).
    pub start: Option<String>,
    /// The list's most recent member, at which the backfill stops.
    pub boundary: Option<String>,
}

/// Plans a backfill: resume at the recorded cursor, and stop at the member
/// the list received last, where there is one.
pub fn plan_backfill(state: &State, last_added: Option<String>) -> (r: BackfillPlan)
    ensures
        opt_view(r.start) == state@.cursor,
        opt_view(r.boundary) == opt_view(last_added),
{
    let start = match state.cursor() {
        Some(c) => Some(c.to_owned()),
        None => None,
    };
    BackfillPlan { start, boundary: last_added }
}

/// What a backfill did: the subjects it added, in order, and the page
/// requests it made.
pub struct BackfillRun {
    pub added: Vec<String>,
    pub requests: Vec<PageRequest>,
}

/// Runs a backfill of `subject`'s followers: the listing is walked from the
/// recorded cursor, the `k`-th request answered by the `k`-th page. Adds, in
/// order, every follower before the boundary (all of them without one), and
/// records the last cursor seen.
pub fn run_backfill(subject: String, state: &mut State, last_added: Option<String>, pages: &Vec<Batch>) -> (r: BackfillRun)
    ensures
        strings_view(r.added@) == subjects(drained(walk_items(batches_view(pages@)), opt_view(last_added))),
        r.requests@.len() == walked(batches_view(pages@)),
        requests_follow(r.requests@, subject@, old(state)@.cursor, batches_view(pages@)),
        final(state)@ == (StateView {
            cursor: if last_cursor(drained(walk_items(batches_view(pages@)), opt_view(last_added))).is_some() {
                last_cursor(drained(walk_items(batches_view(pages@)), opt_view(last_added)))
            } else {
                old(state)@.cursor
            },
            ..old(state)@
        }),
{
    let plan = plan_backfill(state, last_added);
    let walk = enumerate_pages(subject, plan.start, pages);
    let outcome = match &plan.boundary {
        Some(b) => drain_until(&walk.items, b),
        None => drain(&walk.items),
    };
    proof {
        if plan.boundary.is_none() {
            assert(crate::sink::stop_index(walk_items(batches_view(pages@)), None)
                == walk_items(batches_view(pages@)).len()) by {
                crate::sink::lemma_drain_all(walk_items(batches_view(pages@)));
            }
            assert(drained(walk_items(batches_view(pages@)), None)
                =~= walk_items(batches_view(pages@)));
        }
    }
    state.record_backfill(outcome.last_cursor);
    BackfillRun { added: outcome.added, requests: walk.requests }
}

/// A backfill cancelled after adding the first `n` items of its walk has seen
/// last a cursor that names page `k + 1`. Some item `i` among the first `n`
/// carried it, and a walk resumed from it over the same pages yields exactly
/// the items after `i`: none of those up to `i` is added again, and none after
/// it is skipped.
pub proof fn lemma_cancelled_backfill_resumes(pages: Seq<BatchView>, n: int, k: int) -> (i: int)
    requires
        cursors_distinct(pages),
        0 < n <= walk_items(pages).len(),
        0 <= k < pages.len(),
        pages[k].cursor.is_some(),
        last_cursor(walk_items(pages).take(n)) == pages[k].cursor,
    ensures
        0 <= i < n,
        walk_items(pages)[i].cursor == pages[k].cursor,
        walk_items(pages).skip(i + 1) == walk_items(pages.skip(k + 1)),
{
    let items = walk_items(pages);
    let i = lemma_last_cursor_witness(items.take(n));
    assert(items.take(n)[i] == items[i]);
    lemma_resume_after_item(pages, i, k);
    i
}

} // verus!
