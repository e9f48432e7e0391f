use vstd::prelude::*;

verus! {

/// Number of pages needed for `len` items, `per` to a page.
pub open spec fn pages_for(len: int, per: int) -> int
    recommends
        per > 0,
{
    if len % per > 0 {
        len / per + 1
    } else {
        len / per
    }
}

/// Index of the last page when there are `total` pages (0 when there are none).
pub open spec fn last_page(total: usize) -> usize {
    if total > 0 {
        (total - 1) as usize
    } else {
        0
    }
}

/// Discrete, page-based indexing over a sequence of items.
pub struct Pager {
    /// The current page number, counted from 0.
    current: usize,
    /// Number of items on each page.
    per: usize,
    /// Total number of pages.
    total: usize,
}

impl Pager {
    pub closed spec fn spec_current(&self) -> usize {
        self.current
    }

    pub closed spec fn spec_per(&self) -> usize {
        self.per
    }

    pub closed spec fn spec_total(&self) -> usize {
        self.total
    }

    /// Return a new `Pager` on page `current`, with `per` items to a page
    /// and `total` pages.
    pub fn new(current: usize, per: usize, total: usize) -> (r: Self)
        ensures
            r.spec_current() == current,
            r.spec_per() == per,
            r.spec_total() == total,
    {
        Self { current, per, total }
    }

    /// Return the number of items on each page.
    pub fn get_per(&self) -> (r: usize)
        ensures
            r == self.spec_per(),
    {
        self.per
    }

    /// Set the number of items on each page.
    pub fn set_per(&mut self, per: usize)
        ensures
            final(self).spec_per() == per,
            final(self).spec_current() == old(self).spec_current(),
            final(self).spec_total() == old(self).spec_total(),
    {
        self.per = per;
    }

    /// Return the current page number.
    pub fn get_page(&self) -> (r: usize)
        ensures
            r == self.spec_current(),
    {
        self.current
    }

    /// Set the current page number.
    pub fn set_current(&mut self, page: usize)
        ensures
            final(self).spec_current() == page,
            final(self).spec_per() == old(self).spec_per(),
            final(self).spec_total() == old(self).spec_total(),
    {
        self.current = page;
    }

    /// Return the total number of pages.
    pub fn get_total(&self) -> (r: usize)
        ensures
            r == self.spec_total(),
    {
        self.total
    }

    /// Set the number of pages to what `len` items need, and return it.
    /// With no items the number of pages is left as it was.
    pub fn set_total_by_len(&mut self, len: usize) -> (r: usize)
        requires
            len > 0 ==> old(self).spec_per() > 0,
        ensures
            len == 0 ==> r == old(self).spec_total(),
            len > 0 ==> r == pages_for(len as int, old(self).spec_per() as int),
            final(self).spec_total() == r,
            final(self).spec_current() == old(self).spec_current(),
            final(self).spec_per() == old(self).spec_per(),
    {
        if len < 1 {
            return self.total;
        }
        let mut n: usize = len / self.per;
        if len % self.per > 0 {
            proof {
                let (l, p) = (len as int, self.per as int);
                assert(p >= 2) by {
                    if p == 1 {
                        assert(l % 1 == 0);
                    }
                }
                assert(l / p <= l / 2) by {
                    vstd::arithmetic::div_mod::lemma_div_is_ordered_by_denominator(l, 2, p);
                }
            }
            n += 1;
        }
        self.total = n;
        n
    }

    /// First index on the current page.
    pub open spec fn spec_start(&self) -> int {
        self.spec_current() * self.spec_per()
    }

    /// One past the last index on the current page, for `len` items.
    pub open spec fn spec_end(&self, len: int) -> int {
        if self.spec_start() + self.spec_per() < len {
            self.spec_start() + self.spec_per()
        } else {
            len
        }
    }

    /// Return the `(start, end)` range of the items on the current page, for
    /// `len` items in all.
    pub fn get_bounds(&self, len: usize) -> (r: (usize, usize))
        requires
            self.spec_start() + self.spec_per() <= usize::MAX,
        ensures
            r.0 == self.spec_start(),
            r.1 == self.spec_end(len as int),
    {
        proof {
            vstd::arithmetic::mul::lemma_mul_nonnegative(self.current as int, self.per as int);
        }
        let start: usize = self.current * self.per;
        let temp: usize = start + self.per;
        let end: usize = if temp < len {
            temp
        } else {
            len
        };
        (start, end)
    }

    /// Return the number of items on the current page, for `items` items in all.
    pub fn get_num_on_page(&self, items: usize) -> (r: usize)
        requires
            items > 0 ==> self.spec_start() + self.spec_per() <= usize::MAX,
            items > 0 ==> self.spec_start() <= items,
        ensures
            items == 0 ==> r == 0,
            items > 0 ==> r == self.spec_end(items as int) - self.spec_start(),
    {
        if items < 1 {
            return 0;
        }
        let (start, end) = self.get_bounds(items);
        end - start
    }

    /// Move to the previous page, unless this is the first.
    pub fn previous(&mut self)
        ensures
            final(self).spec_current() == prev_page(old(self).spec_current()),
            final(self).spec_per() == old(self).spec_per(),
            final(self).spec_total() == old(self).spec_total(),
        no_unwind
    {
        if self.current > 0 {
            self.current -= 1;
        }
    }

    /// Move to the next page, unless this is the last.
    pub fn next(&mut self)
        requires
            old(self).spec_current() < usize::MAX || old(self).spec_current() == last_page(
                old(self).spec_total(),
            ),
        ensures
            final(self).spec_current() == next_page(
                old(self).spec_current(),
                old(self).spec_total(),
            ),
            final(self).spec_per() == old(self).spec_per(),
            final(self).spec_total() == old(self).spec_total(),
        no_unwind
    {
        if !self.is_on_last_page() {
            self.current += 1;
        }
    }

    /// Return true if the pager is on the last page.
    pub fn is_on_last_page(&self) -> (r: bool)
        ensures
            r == (self.spec_current() == last_page(self.spec_total())),
        no_unwind
    {
        let last: usize = if self.total > 0 {
            self.total - 1
        } else {
            0
        };
        self.current == last
    }

    /// Return true if the pager is on the first page.
    pub fn is_on_first_page(&self) -> (r: bool)
        ensures
            r == (self.spec_current() == 0),
    {
        self.current == 0
    }
}

/// The page that `previous` moves to from `current`.
pub open spec fn prev_page(current: usize) -> usize {
    if current > 0 {
        (current - 1) as usize
    } else {
        0
    }
}

/// The page that `next` moves to from `current`, with `total` pages.
pub open spec fn next_page(current: usize, total: usize) -> usize {
    if current != last_page(total) {
        (current + 1) as usize
    } else {
        current
    }
}

} // verus!

verus! {

/// The page reached from `current` by a run of moves, `true` for `next`
/// and `false` for `previous`, with `total` pages.
pub open spec fn page_after_moves(current: usize, total: usize, moves: Seq<bool>) -> usize
    decreases moves.len(),
{
    if moves.len() == 0 {
        current
    } else {
        let before = page_after_moves(current, total, moves.drop_last());
        if moves.last() {
            next_page(before, total)
        } else {
            prev_page(before)
        }
    }
}

/// For every count of items `len` (at least one) and page size `per`, the
/// page count is the least number of pages that holds all the items, and
/// the bounds of the last page end exactly at `len`.
pub proof fn lemma_last_page_ends_at_len(len: usize, per: usize, pager: Pager)
    requires
        len > 0,
        per > 0,
        pager.spec_per() == per,
        pager.spec_current() == pages_for(len as int, per as int) - 1,
    ensures
        (pages_for(len as int, per as int) - 1) * per < len <= pages_for(len as int, per as int)
            * per,
        pager.spec_start() < len,
        pager.spec_end(len as int) == len,
{
    let (l, p) = (len as int, per as int);
    lemma_pages_for_bounds(l, p);
    assert(pager.spec_start() == (pages_for(l, p) - 1) * p);
    assert((pages_for(l, p) - 1) * p + p == pages_for(l, p) * p) by (nonlinear_arith);
}

/// `pages_for(len, per)` pages of `per` items hold `len` items, and one page
/// fewer would not.
pub proof fn lemma_pages_for_bounds(len: int, per: int)
    requires
        len > 0,
        per > 0,
    ensures
        pages_for(len, per) >= 1,
        (pages_for(len, per) - 1) * per < len <= pages_for(len, per) * per,
{
    let q = len / per;
    let r = len % per;
    vstd::arithmetic::div_mod::lemma_fundamental_div_mod(len, per);
    assert(0 <= r < per);
    if r > 0 {
        assert(pages_for(len, per) == q + 1);
        assert(q >= 0) by (nonlinear_arith)
            requires
                len == per * q + r,
                r < per,
                len > 0,
                per > 0,
        ;
        assert((q + 1) * per == q * per + per) by (nonlinear_arith);
    } else {
        assert(pages_for(len, per) == q);
        assert(q > 0) by (nonlinear_arith)
            requires
                len == per * q,
                len > 0,
                per > 0,
        ;
        assert((q - 1) * per == q * per - per) by (nonlinear_arith);
    }
}

/// However many times `next` and `previous` are called, in whatever order,
/// a pager that starts within `[0, last page]` stays there.
pub proof fn lemma_moves_stay_in_range(current: usize, total: usize, moves: Seq<bool>)
    requires
        current <= last_page(total),
    ensures
        page_after_moves(current, total, moves) <= last_page(total),
    decreases moves.len(),
{
    if moves.len() > 0 {
        lemma_moves_stay_in_range(current, total, moves.drop_last());
    }
}

/// `n` calls of `next` from page `current` reach page `current + n`, or the
/// last page if that comes first.
pub proof fn lemma_nexts_saturate(current: usize, total: usize, n: nat)
    requires
        current <= last_page(total),
    ensures
        page_after_moves(current, total, Seq::new(n, |i: int| true)) == if current + n
            <= last_page(total) {
            current + n
        } else {
            last_page(total) as int
        },
    decreases n,
{
    let moves = Seq::new(n, |i: int| true);
    if n > 0 {
        assert(moves.drop_last() =~= Seq::new((n - 1) as nat, |i: int| true));
        lemma_nexts_saturate(current, total, (n - 1) as nat);
    }
}

} // verus!

verus! {

impl Default for Pager {
    /// A pager on the first of one page, with one item to a page.
    fn default() -> (r: Self)
        ensures
            r.spec_current() == 0,
            r.spec_per() == 1,
            r.spec_total() == 1,
    {
        Pager { current: 0, per: 1, total: 1 }
    }
}

} // verus!
