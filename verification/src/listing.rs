use vstd::prelude::*;

verus! {

/// The number of ids asked for per page.
pub const PAGE_SIZE: u64 = 100;

/// One page of a remote listing, as the server reports it: the ids it
/// carries and its own `num` count (zero announces the end).
#[derive(Debug, Clone)]
pub struct Page {
    pub book_ids: Vec<u64>,
    pub num: u64,
}

/// The paginated remote-listing iterator, split at its network edge: the
/// caller fetches the page at `page_offset()` whenever `needs_page()`
/// holds and feeds it back in, and pulls ids out with `next()`.
pub struct Counter {
    offset: u64,
    idx: usize,
    content: Vec<u64>,
    done: bool,
    yielded: Ghost<Seq<u64>>,
}

impl Counter {
    /// The ids of the current page not yet handed out.
    pub closed spec fn pending(self) -> Seq<u64> {
        self.content@.skip(self.idx as int)
    }

    /// Every id handed out so far, in order.
    pub closed spec fn produced(self) -> Seq<u64> {
        self.yielded@
    }

    /// Whether the listing has ended (a `num == 0` page or a failed fetch).
    pub closed spec fn is_done(self) -> bool {
        self.done
    }

    /// The offset the next page would be fetched at.
    pub closed spec fn next_offset(self) -> u64 {
        self.offset
    }

    pub closed spec fn wf(self) -> bool {
        self.idx <= self.content@.len()
    }

    fn new() -> (c: Counter)
        ensures
            c.wf(),
            c.produced() == Seq::<u64>::empty(),
            c.pending() == Seq::<u64>::empty(),
            !c.is_done(),
            c.next_offset() == 0,
    {
        let c = Counter {
            offset: 0,
            idx: 0,
            content: Vec::new(),
            done: false,
            yielded: Ghost(Seq::empty()),
        };
        assert(c.pending() =~= Seq::<u64>::empty());
        c
    }

    /// True when the current page is drained and no end was seen yet: the
    /// caller must fetch the page at `page_offset()` and feed it back.
    pub fn needs_page(&self) -> (b: bool)
        requires
            self.wf(),
        ensures
            b == (self.pending().len() == 0 && !self.is_done()),
    {
        self.idx == self.content.len() && !self.done
    }

    /// The offset to fetch the next page at.
    pub fn page_offset(&self) -> (o: u64)
        ensures
            o == self.next_offset(),
    {
        self.offset
    }

    /// Whether the listing has ended.
    pub fn is_exhausted(&self) -> (b: bool)
        ensures
            b == self.is_done(),
    {
        self.done
    }

    /// Takes in one fetched page. A page with `num == 0` ends the listing;
    /// any other page replaces the buffer with its ids and advances the
    /// offset by the page size, whatever the page actually held.
    pub fn feed_page(&mut self, page: Page)
        requires
            old(self).wf(),
            old(self).pending().len() == 0,
            !old(self).is_done(),
        ensures
            final(self).wf(),
            final(self).produced() == old(self).produced(),
            page.num == 0 ==> final(self).is_done() && final(self).pending().len() == 0,
            page.num != 0 ==> !final(self).is_done() && final(self).pending() == page.book_ids@
                && final(self).next_offset() == (if old(self).next_offset() + PAGE_SIZE
                <= u64::MAX {
                old(self).next_offset() + PAGE_SIZE
            } else {
                u64::MAX as int
            }),
    {
        if page.num == 0 {
            self.done = true;
            assert(final(self).pending() =~= old(self).pending());
        } else {
            self.content = page.book_ids;
            self.idx = 0;
            if self.offset <= u64::MAX - PAGE_SIZE {
                self.offset = self.offset + PAGE_SIZE;
            } else {
                self.offset = u64::MAX;
            }
            assert(final(self).pending() =~= final(self).content@);
        }
    }

    /// Records that a page fetch failed: the listing silently ends, the
    /// caller cannot tell this apart from exhaustion.
    pub fn feed_failure(&mut self)
        requires
            old(self).wf(),
        ensures
            final(self).wf(),
            final(self).produced() == old(self).produced(),
            final(self).pending() == old(self).pending(),
            final(self).is_done(),
    {
        self.done = true;
    }

    /// Hands out the next buffered id, if the current page still has one.
    pub fn next(&mut self) -> (r: Option<u64>)
        requires
            old(self).wf(),
        ensures
            final(self).wf(),
            match r {
                Some(id) => old(self).pending().len() > 0 && id == old(self).pending()[0]
                    && final(self).pending() == old(self).pending().drop_first()
                    && final(self).produced() == old(self).produced().push(id)
                    && final(self).is_done() == old(self).is_done()
                    && final(self).next_offset() == old(self).next_offset(),
                None => old(self).pending().len() == 0 && *final(self) == *old(self),
            },
    {
        if self.idx < self.content.len() {
            let id = self.content[self.idx];
            self.idx = self.idx + 1;
            proof {
                self.yielded@ = self.yielded@.push(id);
                assert(final(self).pending() =~= old(self).pending().drop_first());
            }
            Some(id)
        } else {
            None
        }
    }
}

/// Starts the remote listing for the configured scope, at offset zero.
pub fn books_in() -> (c: Counter)
    ensures
        c.wf(),
        c.produced() == Seq::<u64>::empty(),
        c.pending() == Seq::<u64>::empty(),
        !c.is_done(),
        c.next_offset() == 0,
{
    Counter::new()
}

/// The ids a listing yields when the server answers with these pages in
/// this order: every page's ids, up to but not including the first page
/// that reports `num == 0`; a listing that runs out of pages also ends.
pub open spec fn listing_of(pages: Seq<(Seq<u64>, u64)>) -> Seq<u64>
    decreases pages.len(),
{
    if pages.len() == 0 {
        Seq::<u64>::empty()
    } else if pages[0].1 == 0 {
        Seq::<u64>::empty()
    } else {
        pages[0].0 + listing_of(pages.drop_first())
    }
}

/// The ids of a run of pages, concatenated in order.
pub open spec fn pages_ids(pages: Seq<(Seq<u64>, u64)>) -> Seq<u64>
    decreases pages.len(),
{
    if pages.len() == 0 {
        Seq::<u64>::empty()
    } else {
        pages[0].0 + pages_ids(pages.drop_first())
    }
}

/// Law: a listing whose very first page reports `num == 0` is empty.
pub proof fn lemma_listing_empty_on_first_zero(pages: Seq<(Seq<u64>, u64)>)
    requires
        pages.len() > 0,
        pages[0].1 == 0,
    ensures
        listing_of(pages) == Seq::<u64>::empty(),
{
}

/// Law: `n` full pages of one hundred ids, a final partial page of
/// `k < 100` ids, and a closing `num == 0` page yield exactly
/// `100 * n + k` ids, in page order.
pub proof fn lemma_listing_full_then_partial(pages: Seq<(Seq<u64>, u64)>, n: int, k: int)
    requires
        0 <= n,
        0 < k < 100,
        pages.len() == n + 2,
        forall|i: int| 0 <= i < n ==> (#[trigger] pages[i]).0.len() == 100 && pages[i].1 == 100,
        pages[n].0.len() == k,
        pages[n].1 == k,
        pages[n + 1].1 == 0,
    ensures
        listing_of(pages) == pages_ids(pages.take(n + 1)),
        listing_of(pages).len() == 100 * n + k,
    decreases n,
{
    if n == 0 {
        assert(listing_of(pages) == pages[0].0 + listing_of(pages.drop_first()));
        assert(pages.drop_first()[0] == pages[1]);
        assert(listing_of(pages.drop_first()) == Seq::<u64>::empty());
        assert(pages.take(1).drop_first() =~= Seq::<(Seq<u64>, u64)>::empty());
        assert(pages_ids(pages.take(1).drop_first()) == Seq::<u64>::empty());
        assert(pages.take(1)[0] == pages[0]);
        assert(pages_ids(pages.take(1)) == pages[0].0 + pages_ids(pages.take(1).drop_first()));
        assert(listing_of(pages) =~= pages_ids(pages.take(1)));
    } else {
        let rest = pages.drop_first();
        assert(rest.len() == n + 1);
        assert forall|i: int| 0 <= i < n - 1 implies (#[trigger] rest[i]).0.len() == 100
            && rest[i].1 == 100 by {
            assert(rest[i] == pages[i + 1]);
        }
        assert(rest[n - 1] == pages[n]);
        assert(rest[n] == pages[n + 1]);
        lemma_listing_full_then_partial(rest, n - 1, k);
        assert(listing_of(pages) == pages[0].0 + listing_of(rest));
        assert(pages.take(n + 1).drop_first() =~= rest.take(n));
        assert(pages.take(n + 1)[0] == pages[0]);
        assert(pages_ids(pages.take(n + 1)) == pages[0].0 + pages_ids(rest.take(n)));
        assert(listing_of(pages) == pages_ids(pages.take(n + 1)));
        assert(listing_of(pages).len() == 100 + (100 * (n - 1) + k));
        assert(100 + (100 * (n - 1) + k) == 100 * n + k) by (nonlinear_arith);
    }
}

/// The pages as the spec model sees them.
pub open spec fn pages_model(pages: Seq<Page>) -> Seq<(Seq<u64>, u64)> {
    pages.map_values(|p: Page| (p.book_ids@, p.num))
}

/// Drives a fresh listing over the given pages, in order, and collects
/// every id it yields: the executable face of `listing_of`. A caller that
/// runs out of pages to feed stands for a failed fetch.
pub fn collect_listing(pages: &Vec<Page>) -> (ids: Vec<u64>)
    ensures
        ids@ == listing_of(pages_model(pages@)),
{
    let ghost model = pages_model(pages@);
    let mut c = books_in();
    let mut ids: Vec<u64> = Vec::new();
    let mut pi: usize = 0;
    proof {
        assert(model.skip(0) =~= model);
        assert(ids@ + c.pending() + listing_of(model.skip(0)) =~= listing_of(model));
    }
    loop
        invariant_except_break
            c.wf(),
            pi <= pages@.len(),
            model == pages_model(pages@),
            !c.is_done() ==> listing_of(model) == ids@ + c.pending() + listing_of(
                model.skip(pi as int),
            ),
            c.is_done() ==> listing_of(model) == ids@ + c.pending(),
        ensures
            ids@ == listing_of(model),
        decreases
                pages@.len() - pi,
                c.pending().len(),
                (if c.is_done() {
                    0int
                } else {
                    1int
                }),
    {
        let ghost pre_ids = ids@;
        let ghost pre_pending = c.pending();
        let stepped = c.next();
        match stepped {
            Some(id) => {
                ids.push(id);
                proof {
                    assert(ids@ + c.pending() =~= pre_ids + pre_pending);
                }
            },
            None => {
                if c.is_exhausted() {
                    proof {
                        assert(ids@ + c.pending() =~= ids@);
                    }
                    break;
                } else if pi < pages.len() {
                    let page = Page {
                        book_ids: pages[pi].book_ids.clone(),
                        num: pages[pi].num,
                    };
                    proof {
                        assert(model[pi as int] == (pages@[pi as int].book_ids@,
                        pages@[pi as int].num));
                        assert(page.book_ids@ == pages@[pi as int].book_ids@);
                    }
                    c.feed_page(page);
                    proof {
                        let rest = model.skip(pi as int);
                        assert(rest[0] == model[pi as int]);
                        assert(rest.drop_first() =~= model.skip(pi + 1));
                        if pages@[pi as int].num == 0 {
                            assert(listing_of(rest) =~= Seq::<u64>::empty());
                            assert(ids@ + c.pending() =~= ids@);
                        } else {
                            assert(listing_of(rest) == rest[0].0 + listing_of(rest.drop_first()));
                            assert(ids@ + c.pending() + listing_of(model.skip(pi + 1)) =~= ids@
                                + (rest[0].0 + listing_of(rest.drop_first())));
                        }
                    }
                    pi = pi + 1;
                } else {
                    c.feed_failure();
                    proof {
                        assert(model.skip(pi as int) =~= Seq::<(Seq<u64>, u64)>::empty());
                        assert(ids@ + c.pending() =~= ids@);
                    }
                }
            },
        }
    }
    ids
}

} // verus!
