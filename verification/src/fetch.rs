//! Paginated inventory retrieval: aggregation of provider pages into
//! one complete snapshot, aborting on the first page failure. Partial
//! inventories are never returned.

use vstd::prelude::*;
use crate::model::{FetchError, Instance, TransportError};

verus! {

/// One reservation from a provider response: a group of instances.
pub struct Reservation {
    pub instances: Vec<Instance>,
}

/// One page of the paginated inventory response: zero or more
/// reservations, each holding zero or more instances.
pub struct Page {
    pub reservations: Vec<Reservation>,
}

/// What one page request produced, as handed in from the transport
/// edge: either the page, or the classified transport failure.
pub enum PageOutcome {
    Fetched(Page),
    Failed(TransportError),
}

/// Concatenation of a sequence of instance groups, in order.
pub open spec fn groups_concat(s: Seq<Seq<Instance>>) -> Seq<Instance>
    decreases s.len(),
{
    if s.len() == 0 {
        Seq::empty()
    } else {
        groups_concat(s.drop_last()) + s.last()
    }
}

/// All instances of one page, reservations flattened in order.
pub open spec fn page_instances(p: Page) -> Seq<Instance> {
    groups_concat(p.reservations@.map_values(|r: Reservation| r.instances@))
}

proof fn lemma_groups_concat_push(s: Seq<Seq<Instance>>, g: Seq<Instance>)
    ensures
        groups_concat(s.push(g)) == groups_concat(s) + g,
{
    assert(s.push(g).drop_last() =~= s);
}

/// Append every instance of `page` to `acc`, reservation groups kept in
/// provider order.
pub fn collect_page(acc: &mut Vec<Instance>, page: Page)
    ensures
        final(acc)@ == old(acc)@ + page_instances(page),
{
    let ghost base = old(acc)@;
    let ghost groups = page.reservations@.map_values(|r: Reservation| r.instances@);
    let mut rest = page.reservations;
    let ghost mut done: Seq<Seq<Instance>> = Seq::empty();
    proof {
        assert(groups =~= done + rest@.map_values(|r: Reservation| r.instances@));
        assert(acc@ =~= base + groups_concat(done));
    }
    while rest.len() > 0
        invariant
            groups == done + rest@.map_values(|r: Reservation| r.instances@),
            acc@ == base + groups_concat(done),
        decreases rest@.len(),
    {
        let ghost prev = rest@;
        let mut r = rest.remove(0);
        let ghost g = r.instances@;
        proof {
            lemma_groups_concat_push(done, g);
        }
        acc.append(&mut r.instances);
        proof {
            done = done.push(g);
            assert(groups =~= done + rest@.map_values(|rr: Reservation| rr.instances@));
            assert(acc@ =~= base + groups_concat(done));
        }
    }
    proof {
        assert(done =~= groups);
        assert(acc@ =~= base + page_instances(page));
    }
}

/// The classification of the first failed page request, if any.
pub open spec fn first_failure(pages: Seq<PageOutcome>) -> Option<TransportError>
    decreases pages.len(),
{
    if pages.len() == 0 {
        None
    } else {
        match pages[0] {
            PageOutcome::Failed(e) => Some(e),
            PageOutcome::Fetched(_) => first_failure(pages.drop_first()),
        }
    }
}

/// The instances of the fetched pages, flattened in order.
pub open spec fn fetched_instances(pages: Seq<PageOutcome>) -> Seq<Instance>
    decreases pages.len(),
{
    if pages.len() == 0 {
        Seq::empty()
    } else {
        fetched_instances(pages.drop_last()) + (match pages.last() {
            PageOutcome::Fetched(p) => page_instances(p),
            PageOutcome::Failed(_) => Seq::empty(),
        })
    }
}

proof fn lemma_fetched_instances_push(pages: Seq<PageOutcome>, po: PageOutcome)
    ensures
        fetched_instances(pages.push(po)) == fetched_instances(pages) + (match po {
            PageOutcome::Fetched(p) => page_instances(p),
            PageOutcome::Failed(_) => Seq::<Instance>::empty(),
        }),
{
    assert(pages.push(po).drop_last() =~= pages);
}

/// Skipping a prefix of successfully fetched pages does not change the
/// first failure.
proof fn lemma_first_failure_skip(pages: Seq<PageOutcome>, j: int)
    requires
        0 <= j <= pages.len(),
        forall|t: int| 0 <= t < j ==> pages[t] is Fetched,
    ensures
        first_failure(pages) == first_failure(pages.skip(j)),
    decreases j,
{
    if j > 0 {
        lemma_first_failure_skip(pages, j - 1);
        assert(pages.skip(j - 1)[0] == pages[j - 1]);
        assert(pages.skip(j - 1).drop_first() =~= pages.skip(j));
    } else {
        assert(pages.skip(0) =~= pages);
    }
}

proof fn lemma_all_fetched_no_failure(pages: Seq<PageOutcome>)
    requires
        forall|i: int| 0 <= i < pages.len() ==> pages[i] is Fetched,
    ensures
        first_failure(pages) is None,
    decreases pages.len(),
{
    if pages.len() > 0 {
        lemma_all_fetched_no_failure(pages.drop_first());
    }
}

/// Aggregate a run of page outcomes into the complete inventory.
///
/// The first page failure aborts the whole fetch with its transport
/// classification, whatever came after it; when every page was
/// fetched, the result is the in-order flattening of all pages, or the
/// distinct nothing-to-do condition when that flattening is empty.
pub fn fetch_all(pages: Vec<PageOutcome>) -> (r: Result<Vec<Instance>, FetchError>)
    ensures
        first_failure(pages@) matches Some(e) ==> r == Err::<Vec<Instance>, FetchError>(
            FetchError::Transport(e),
        ),
        first_failure(pages@) is None && fetched_instances(pages@).len() == 0 ==> r == Err::<
            Vec<Instance>,
            FetchError,
        >(FetchError::NoInstancesFound),
        first_failure(pages@) is None && fetched_instances(pages@).len() > 0 ==> (r matches Ok(v)
            && v@ == fetched_instances(pages@)),
{
    let ghost orig = pages@;
    let mut rest = pages;
    let mut acc: Vec<Instance> = Vec::new();
    let ghost mut done: Seq<PageOutcome> = Seq::empty();
    proof {
        assert(orig =~= done + rest@);
    }
    while rest.len() > 0
        invariant
            orig == pages@,
            orig == done + rest@,
            forall|t: int| 0 <= t < done.len() ==> done[t] is Fetched,
            acc@ == fetched_instances(done),
        decreases rest@.len(),
    {
        let ghost prev = rest@;
        let po = rest.remove(0);
        match po {
            PageOutcome::Failed(e) => {
                proof {
                    assert forall|t: int| 0 <= t < done.len() implies orig[t] is Fetched by {
                        assert(orig[t] == done[t]);
                    }
                    lemma_first_failure_skip(orig, done.len() as int);
                    assert(orig.skip(done.len() as int) =~= prev);
                    assert(prev[0] == PageOutcome::Failed(e));
                    assert(first_failure(prev) == Some(e));
                    assert(first_failure(orig) == Some(e));
                }
                return Err(FetchError::Transport(e));
            },
            PageOutcome::Fetched(p) => {
                let ghost gp = p;
                proof {
                    lemma_fetched_instances_push(done, PageOutcome::Fetched(gp));
                }
                collect_page(&mut acc, p);
                proof {
                    done = done.push(PageOutcome::Fetched(gp));
                    assert(orig =~= done + rest@);
                }
            },
        }
    }
    proof {
        assert(done =~= orig);
        lemma_all_fetched_no_failure(orig);
    }
    if acc.len() == 0 {
        Err(FetchError::NoInstancesFound)
    } else {
        Ok(acc)
    }
}

/// Sum of the sizes of the fetched pages.
pub open spec fn sum_page_sizes(pages: Seq<PageOutcome>) -> nat
    decreases pages.len(),
{
    if pages.len() == 0 {
        0
    } else {
        sum_page_sizes(pages.drop_last()) + (match pages.last() {
            PageOutcome::Fetched(p) => page_instances(p).len(),
            PageOutcome::Failed(_) => 0,
        })
    }
}

/// Completeness of pagination: when every page is retrieved, the
/// aggregate inventory is the in-order concatenation of all pages'
/// instances — none dropped and none introduced — so its size is the
/// sum of the page sizes.
pub proof fn lemma_fetch_completeness(pages: Seq<PageOutcome>)
    requires
        forall|i: int| 0 <= i < pages.len() ==> pages[i] is Fetched,
    ensures
        first_failure(pages) is None,
        fetched_instances(pages).len() == sum_page_sizes(pages),
    decreases pages.len(),
{
    lemma_all_fetched_no_failure(pages);
    if pages.len() > 0 {
        lemma_fetch_completeness(pages.drop_last());
    }
}

} // verus!
