//! Which pages of a RAM region are shared with the host.
use crate::memory::bitmap::{assign_bit, find_runs, test_bit};
use vstd::prelude::*;

verus! {

/// Shared/private page bitmap of one RAM region.
///
/// The bitmap is the source of truth for what is shared right now. A new
/// region starts fully private.
pub struct RamBlockAttributes {
    page_size: usize,
    region_start: u64,
    region_size: u64,
    shared_bits: Vec<u64>,
}

impl RamBlockAttributes {
    /// First address of the region.
    pub closed spec fn start(&self) -> int {
        self.region_start as int
    }

    /// Length of the region in bytes.
    pub closed spec fn size(&self) -> int {
        self.region_size as int
    }

    /// Length of a page in bytes.
    pub closed spec fn page(&self) -> int {
        self.page_size as int
    }

    /// Number of pages in the region.
    pub open spec fn npages(&self) -> nat {
        (self.size() / self.page()) as nat
    }

    /// For each page, whether it is shared.
    pub closed spec fn shared(&self) -> Seq<bool> {
        crate::memory::bitmap::bits_of(self.shared_bits@, self.npages())
    }

    /// First address of page `p`.
    pub open spec fn page_start(&self, p: int) -> int {
        self.start() + p * self.page()
    }

    /// The region and its bitmap agree.
    pub closed spec fn wf(&self) -> bool {
        &&& self.page_size > 0
        &&& self.region_start % (self.page_size as u64) == 0
        &&& self.region_size % (self.page_size as u64) == 0
        &&& self.npages() <= usize::MAX
        &&& self.npages() <= 64 * self.shared_bits@.len() < self.npages() + 64
    }

    /// Whether an address lies in the region. An address space ends at
    /// `u64::MAX`, which no region contains when it would wrap around.
    pub open spec fn spans(&self, gpa: int) -> bool {
        self.start() <= gpa < self.start() + self.size() && (self.start() + self.size() > u64::MAX
            ==> gpa < u64::MAX)
    }

    /// Whether the page that holds an address is shared.
    pub open spec fn shared_at(&self, gpa: int) -> bool {
        self.spans(gpa) && self.shared()[(gpa - self.start()) / self.page()]
    }

    /// Whether page `p` lies wholly inside `[gpa, gpa + size)`. A request that
    /// runs past the end of the address space covers nothing.
    pub open spec fn covered(&self, p: int, gpa: int, size: int) -> bool {
        &&& gpa + size <= u64::MAX
        &&& gpa <= self.page_start(p)
        &&& self.page_start(p + 1) <= gpa + size
    }

    /// The pages wholly inside `[gpa, gpa + size)`: they are `first..last`.
    pub open spec fn covers_pages(&self, gpa: int, size: int, first: int, last: int) -> bool {
        &&& 0 <= first <= last <= self.npages()
        &&& forall|p: int|
            0 <= p < self.npages() ==> (first <= p < last <==> #[trigger] self.covered(
                p,
                gpa,
                size,
            ))
    }

    /// The region after every page wholly inside `[gpa, gpa + size)` was marked,
    /// as shared or as private.
    pub open spec fn marks(
        &self,
        after: &RamBlockAttributes,
        gpa: int,
        size: int,
        shared: bool,
    ) -> bool {
        &&& after.start() == self.start()
        &&& after.size() == self.size()
        &&& after.page() == self.page()
        &&& after.shared() == (if shared {
            Seq::new(self.npages(), |p: int| self.covered(p, gpa, size) || self.shared()[p])
        } else {
            Seq::new(self.npages(), |p: int| !self.covered(p, gpa, size) && self.shared()[p])
        })
    }

    /// Whether a list is that of the runs of shared pages among those wholly
    /// inside `[gpa, gpa + size)`.
    pub open spec fn lists_shared(&self, gpa: int, size: int, out: Seq<(u64, u64)>) -> bool {
        exists|first: int, last: int|
            #![trigger self.covers_pages(gpa, size, first, last)]
            {
                let runs = crate::memory::bitmap::runs(self.shared(), first, last);
                &&& self.covers_pages(gpa, size, first, last)
                &&& out.len() == runs.len()
                &&& forall|i: int|
                    0 <= i < out.len() ==> {
                        &&& (#[trigger] out[i]).0 == self.page_start(runs[i].0)
                        &&& out[i].1 == (runs[i].1 - runs[i].0) * self.page()
                    }
            }
    }

    /// What the accessors of a well-formed region guarantee.
    pub proof fn lemma_wf(&self)
        requires
            self.wf(),
        ensures
            0 <= self.start() <= u64::MAX,
            0 <= self.size() <= u64::MAX,
            0 < self.page() <= usize::MAX,
            self.start() % self.page() == 0,
            self.size() % self.page() == 0,
            self.shared().len() == self.npages(),
            self.npages() * self.page() == self.size(),
    {
        vstd::arithmetic::div_mod::lemma_fundamental_div_mod(self.size(), self.page());
        vstd::arithmetic::mul::lemma_mul_is_commutative(self.page(), self.size() / self.page());
    }

    /// Creates the attributes of `[region_start, region_start + region_size)`,
    /// all private.
    pub fn new(region_start: u64, region_size: u64, page_size: usize) -> (r: Self)
        requires
            page_size > 0,
            region_start % (page_size as u64) == 0,
            region_size % (page_size as u64) == 0,
            region_size / (page_size as u64) <= usize::MAX,
        ensures
            r.wf(),
            r.start() == region_start,
            r.size() == region_size,
            r.page() == page_size,
            r.shared() == Seq::new(r.npages(), |i: int| false),
    {
        let pages: usize = (region_size / page_size as u64) as usize;
        let words: usize = pages / 64 + (if pages % 64 != 0 {
            1
        } else {
            0
        });
        let r = Self { page_size, region_start, region_size, shared_bits: vec![0u64;words] };
        proof {
            assert(r.npages() == pages);
            assert forall|i: int| 0 <= i < r.npages() implies !r.shared()[i] by {
                crate::memory::bitmap::lemma_zero_words(r.shared_bits@, i);
            }
            assert(r.shared() =~= Seq::new(r.npages(), |i: int| false));
        }
        r
    }

    /// First address of the region.
    pub fn region_start(&self) -> (r: u64)
        ensures
            r == self.start(),
    {
        self.region_start
    }

    /// Length of the region in bytes.
    pub fn region_size(&self) -> (r: u64)
        ensures
            r == self.size(),
    {
        self.region_size
    }

    /// Length of a page in bytes.
    pub fn page_size(&self) -> (r: usize)
        ensures
            r == self.page(),
    {
        self.page_size
    }

    /// Whether `gpa` falls within the region.
    pub fn contains(&self, gpa: u64) -> (r: bool)
        ensures
            r == self.spans(gpa as int),
    {
        gpa >= self.region_start && gpa < self.region_start.saturating_add(self.region_size)
    }

    /// Whether the page containing `gpa` is shared; false outside the region.
    pub fn is_shared(&self, gpa: u64) -> (r: bool)
        requires
            self.wf(),
        ensures
            r == self.shared_at(gpa as int),
    {
        if !self.contains(gpa) {
            return false;
        }
        let rel: u64 = gpa - self.region_start;
        proof {
            self.lemma_wf();
            lemma_page_below(rel as int, self.page(), self.npages() as int);
        }
        let page: usize = (rel / self.page_size as u64) as usize;
        test_bit(self.shared_bits.as_slice(), page)
    }

    /// Marks every page wholly inside `[gpa, gpa + size)` as shared. Parts
    /// outside the region are ignored, so a caller may pass a range that spans
    /// several regions.
    pub fn set_shared(&mut self, gpa: u64, size: u64)
        requires
            old(self).wf(),
        ensures
            final(self).wf(),
            old(self).marks(final(self), gpa as int, size as int, true),
    {
        self.update_range(gpa, size, true);
        assert(self.shared() =~= Seq::new(
            old(self).npages(),
            |p: int| old(self).covered(p, gpa as int, size as int) || old(self).shared()[p],
        ));
    }

    /// Marks every page wholly inside `[gpa, gpa + size)` as private.
    pub fn set_private(&mut self, gpa: u64, size: u64)
        requires
            old(self).wf(),
        ensures
            final(self).wf(),
            old(self).marks(final(self), gpa as int, size as int, false),
    {
        self.update_range(gpa, size, false);
        assert(self.shared() =~= Seq::new(
            old(self).npages(),
            |p: int| !old(self).covered(p, gpa as int, size as int) && old(self).shared()[p],
        ));
    }

    /// Lists the runs of shared pages among those wholly inside
    /// `[gpa, gpa + size)`, each as its address and its length, ascending.
    pub fn shared_ranges(&self, gpa: u64, size: u64) -> (out: Vec<(u64, u64)>)
        requires
            self.wf(),
        ensures
            self.lists_shared(gpa as int, size as int, out@),
    {
        let (start_page, end_page): (usize, usize) = match self.clamp_to_pages(gpa, size) {
            Some(p) => p,
            None => {
                let out: Vec<(u64, u64)> = Vec::new();
                proof {
                    assert(crate::memory::bitmap::runs(self.shared(), 0, 0).len() == 0);
                    assert(self.covers_pages(gpa as int, size as int, 0, 0));
                }
                return out;
            },
        };
        let found: Vec<(usize, usize)> = find_runs(
            self.shared_bits.as_slice(),
            start_page,
            end_page,
        );
        let ghost runs = crate::memory::bitmap::runs(
            self.shared(),
            start_page as int,
            end_page as int,
        );
        proof {
            self.lemma_wf();
            lemma_runs_prefix(
                crate::memory::bitmap::bits_of(self.shared_bits@, end_page as nat),
                self.shared(),
                start_page as int,
                end_page as int,
            );
        }
        let mut out: Vec<(u64, u64)> = Vec::new();
        let mut i: usize = 0;
        while i < found.len()
            invariant
                self.wf(),
                i <= found@.len(),
                found@.len() == runs.len(),
                out@.len() == i,
                start_page < end_page <= self.npages(),
                self.page_start(end_page as int) <= u64::MAX,
                forall|k: int|
                    0 <= k < found@.len() ==> {
                        &&& (#[trigger] found@[k]).0 == runs[k].0
                        &&& found@[k].1 == runs[k].1
                        &&& start_page <= runs[k].0 < runs[k].1 <= end_page
                    },
                forall|k: int|
                    0 <= k < out@.len() ==> {
                        &&& (#[trigger] out@[k]).0 == self.page_start(runs[k].0)
                        &&& out@[k].1 == (runs[k].1 - runs[k].0) * self.page()
                    },
            decreases found@.len() - i,
        {
            let (s, e): (usize, usize) = found[i];
            proof {
                self.lemma_wf();
                vstd::arithmetic::mul::lemma_mul_inequality(
                    e as int,
                    end_page as int,
                    self.page(),
                );
            }
            out.push(self.range_for(s, e));
            i = i + 1;
        }
        out
    }

    fn update_range(&mut self, gpa: u64, size: u64, shared: bool)
        requires
            old(self).wf(),
        ensures
            final(self).wf(),
            final(self).start() == old(self).start(),
            final(self).size() == old(self).size(),
            final(self).page() == old(self).page(),
            final(self).shared().len() == old(self).npages(),
            forall|p: int|
                0 <= p < old(self).npages() ==> #[trigger] final(self).shared()[p] == (if old(self).covered(p, gpa as int, size as int) {
                    shared
                } else {
                    old(self).shared()[p]
                }),
    {
        proof {
            self.lemma_wf();
        }
        let (start_page, end_page): (usize, usize) = match self.clamp_to_pages(gpa, size) {
            Some(p) => p,
            None => {
                return;
            },
        };
        let ghost before = *self;
        let mut page: usize = start_page;
        while page < end_page
            invariant
                before.wf(),
                self.wf(),
                self.region_start == before.region_start,
                self.region_size == before.region_size,
                self.page_size == before.page_size,
                start_page <= page <= end_page <= before.npages(),
                self.shared().len() == before.npages(),
                forall|p: int|
                    0 <= p < before.npages() ==> #[trigger] self.shared()[p] == (if start_page <= p
                        < page {
                        shared
                    } else {
                        before.shared()[p]
                    }),
            decreases end_page - page,
        {
            let ghost prev = *self;
            assign_bit(&mut self.shared_bits, page, shared);
            proof {
                assert forall|p: int| 0 <= p < before.npages() implies #[trigger] self.shared()[p]
                    == (if start_page <= p < page + 1 {
                    shared
                } else {
                    before.shared()[p]
                }) by {
                    assert(prev.shared()[p] == crate::memory::bitmap::bit_of(prev.shared_bits@, p));
                    assert(self.shared()[p] == crate::memory::bitmap::bit_of(self.shared_bits@, p));
                }
            }
            page = page + 1;
        }
    }

    /// The pages wholly inside `[gpa, gpa + size)`, or `None` if there are none.
    fn clamp_to_pages(&self, gpa: u64, size: u64) -> (r: Option<(usize, usize)>)
        requires
            self.wf(),
        ensures
            match r {
                Some((first, last)) => {
                    &&& first < last
                    &&& self.covers_pages(gpa as int, size as int, first as int, last as int)
                    &&& self.page_start(last as int) <= u64::MAX
                },
                None => self.covers_pages(gpa as int, size as int, 0, 0),
            },
    {
        proof {
            self.lemma_wf();
        }
        let region_end: u64 = self.region_start.saturating_add(self.region_size);
        let ps: u64 = self.page_size as u64;
        let req_end: u64 = match gpa.checked_add(size) {
            Some(e) => e,
            None => {
                return None;
            },
        };
        let start: u64 = if gpa > self.region_start {
            gpa
        } else {
            self.region_start
        };
        let end: u64 = if req_end < region_end {
            req_end
        } else {
            region_end
        };
        let ghost s0 = self.start() / self.page();
        proof {
            vstd::arithmetic::div_mod::lemma_fundamental_div_mod(self.start(), self.page());
            vstd::arithmetic::mul::lemma_mul_is_commutative(self.page(), s0);
            assert forall|p: int| 0 <= p < self.npages() implies (#[trigger] self.covered(
                p,
                gpa as int,
                size as int,
            ) <==> {
                &&& start <= (s0 + p) * self.page()
                &&& (s0 + p + 1) * self.page() <= end
            }) by {
                lemma_page_bounds(self.page(), s0, p, self.npages() as int);
            }
        }
        if start >= end {
            proof {
                assert forall|p: int| 0 <= p < self.npages() implies !(#[trigger] self.covered(
                    p,
                    gpa as int,
                    size as int,
                )) by {
                    lemma_page_bounds(self.page(), s0, p, self.npages() as int);
                }
            }
            return None;
        }
        let first_abs: u64 = start / ps + (if start % ps != 0 {
            1
        } else {
            0
        });
        let last_abs: u64 = end / ps;
        proof {
            assert forall|q: int|
                (start <= #[trigger] (q * self.page()) <==> first_abs <= q) by {
                lemma_ceil(start as int, self.page(), q);
            }
            assert forall|q: int| (#[trigger] (q * self.page()) <= end <==> q <= last_abs) by {
                lemma_floor(end as int, self.page(), q);
            }
            assert forall|p: int| 0 <= p < self.npages() implies (#[trigger] self.covered(
                p,
                gpa as int,
                size as int,
            ) <==> first_abs <= s0 + p && s0 + p + 1 <= last_abs) by {
                assert(start <= (s0 + p) * self.page() <==> first_abs <= s0 + p);
                assert((s0 + p + 1) * self.page() <= end <==> s0 + p + 1 <= last_abs);
            }
            assert(s0 * self.page() <= start);
            lemma_ceil(start as int, self.page(), s0);
            lemma_ceil_least(start as int, self.page(), first_abs as int, s0);
            lemma_last(end as int, self.page(), last_abs as int, s0 + self.npages(), s0, self.npages() as int);
        }
        let aligned_start: u64 = match first_abs.checked_mul(ps) {
            Some(v) => v,
            None => {
                proof {
                    assert(!(last_abs > first_abs)) by {
                        if last_abs > first_abs {
                            vstd::arithmetic::mul::lemma_mul_inequality(
                                first_abs as int,
                                last_abs as int,
                                self.page(),
                            );
                        }
                    }
                }
                return None;
            },
        };
        let aligned_end: u64 = match last_abs.checked_mul(ps) {
            Some(v) => v,
            None => {
                assert(false);
                return None;
            },
        };
        if aligned_start >= aligned_end {
            proof {
                if first_abs < last_abs {
                    vstd::arithmetic::mul::lemma_mul_strict_inequality(
                        first_abs as int,
                        last_abs as int,
                        self.page(),
                    );
                }
            }
            return None;
        }
        proof {
            if first_abs >= last_abs {
                vstd::arithmetic::mul::lemma_mul_inequality(
                    last_abs as int,
                    first_abs as int,
                    self.page(),
                );
            }
            lemma_exact_div(first_abs as int, s0, self.page());
            lemma_exact_div(last_abs as int, s0, self.page());
        }
        let start_page: usize = ((aligned_start - self.region_start) / ps) as usize;
        let end_page: usize = ((aligned_end - self.region_start) / ps) as usize;
        proof {
            assert(self.page_start(end_page as int) == aligned_end) by {
                vstd::arithmetic::mul::lemma_mul_is_distributive_sub_other_way(
                    self.page(),
                    last_abs as int,
                    s0,
                );
            }
        }
        Some((start_page, end_page))
    }

    fn range_for(&self, start_page: usize, end_page: usize) -> (r: (u64, u64))
        requires
            self.wf(),
            start_page <= end_page <= self.npages(),
            self.page_start(end_page as int) <= u64::MAX,
        ensures
            r.0 == self.page_start(start_page as int),
            r.1 == (end_page - start_page) * self.page(),
    {
        proof {
            self.lemma_wf();
            vstd::arithmetic::mul::lemma_mul_inequality(
                start_page as int,
                end_page as int,
                self.page(),
            );
            vstd::arithmetic::mul::lemma_mul_inequality(
                end_page - start_page,
                end_page as int,
                self.page(),
            );
            vstd::arithmetic::mul::lemma_mul_nonnegative(start_page as int, self.page());
            vstd::arithmetic::mul::lemma_mul_nonnegative(end_page - start_page, self.page());
        }
        let ps: u64 = self.page_size as u64;
        let gpa: u64 = self.region_start + start_page as u64 * ps;
        let size: u64 = (end_page - start_page) as u64 * ps;
        (gpa, size)
    }
}

/// Marking a range shared and then the same range private again leaves every
/// page wholly inside the range private and every other page as it was.
pub proof fn set_private_undoes_set_shared(
    before: RamBlockAttributes,
    shared: RamBlockAttributes,
    after: RamBlockAttributes,
    gpa: u64,
    size: u64,
    p: int,
)
    requires
        before.wf(),
        0 <= p < before.npages(),
        shared.start() == before.start() && shared.size() == before.size() && shared.page()
            == before.page(),
        after.start() == before.start() && after.size() == before.size() && after.page()
            == before.page(),
        shared.shared() == Seq::new(
            before.npages(),
            |p: int| before.covered(p, gpa as int, size as int) || before.shared()[p],
        ),
        after.shared() == Seq::new(
            shared.npages(),
            |p: int| !shared.covered(p, gpa as int, size as int) && shared.shared()[p],
        ),
    ensures
        before.covered(p, gpa as int, size as int) ==> shared.shared()[p] && !after.shared()[p],
        !before.covered(p, gpa as int, size as int) ==> after.shared()[p] == before.shared()[p],
{
}

/// An address inside a page that a range covers reads as shared once the range
/// has been marked shared, whatever it was before.
pub proof fn shared_after_set_shared(
    before: RamBlockAttributes,
    after: RamBlockAttributes,
    gpa: u64,
    size: u64,
    addr: u64,
)
    requires
        before.wf(),
        after.wf(),
        after.start() == before.start() && after.size() == before.size() && after.page()
            == before.page(),
        after.shared() == Seq::new(
            before.npages(),
            |p: int| before.covered(p, gpa as int, size as int) || before.shared()[p],
        ),
        before.spans(addr as int),
        before.covered((addr - before.start()) / before.page(), gpa as int, size as int),
    ensures
        after.shared_at(addr as int),
{
    before.lemma_wf();
    lemma_page_below(addr - before.start(), before.page(), before.npages() as int);
}

/// A range that does not meet the region changes nothing in it.
pub proof fn disjoint_range_covers_nothing(
    attrs: RamBlockAttributes,
    gpa: u64,
    size: u64,
    p: int,
)
    requires
        attrs.wf(),
        0 <= p < attrs.npages(),
        gpa + size <= attrs.start() || attrs.start() + attrs.size() <= gpa,
    ensures
        !attrs.covered(p, gpa as int, size as int),
{
    attrs.lemma_wf();
    lemma_page_bounds(attrs.page(), 0, p, attrs.npages() as int);
}

proof fn lemma_page_below(rel: int, page: int, n: int)
    by (nonlinear_arith)
    requires
        page > 0,
        0 <= rel < n * page,
    ensures
        0 <= rel / page < n,
{
}

proof fn lemma_page_bounds(page: int, s0: int, p: int, n: int)
    by (nonlinear_arith)
    requires
        page > 0,
        0 <= p < n,
        s0 >= 0,
    ensures
        (s0 + p) * page == s0 * page + p * page,
        (s0 + p + 1) * page == s0 * page + (p + 1) * page,
        (s0 + p + 1) * page == (s0 + p) * page + page,
        (p + 1) * page <= n * page,
        p * page >= 0,
{
}

proof fn lemma_ceil(a: int, page: int, q: int)
    by (nonlinear_arith)
    requires
        page > 0,
        a >= 0,
    ensures
        a <= q * page <==> a / page + (if a % page != 0 {
            1int
        } else {
            0int
        }) <= q,
{
}

proof fn lemma_floor(e: int, page: int, q: int)
    by (nonlinear_arith)
    requires
        page > 0,
        e >= 0,
    ensures
        q * page <= e <==> q <= e / page,
{
}

proof fn lemma_ceil_least(a: int, page: int, c: int, s0: int)
    by (nonlinear_arith)
    requires
        page > 0,
        s0 * page <= a,
        a <= c * page,
    ensures
        s0 <= c,
{
}

proof fn lemma_last(e: int, page: int, last: int, bound: int, s0: int, n: int)
    by (nonlinear_arith)
    requires
        page > 0,
        last == e / page,
        bound == s0 + n,
        e <= s0 * page + n * page,
    ensures
        last <= bound,
        last * page <= e,
{
}

proof fn lemma_exact_div(c: int, s0: int, page: int)
    by (nonlinear_arith)
    requires
        page > 0,
    ensures
        (c * page - s0 * page) / page == c - s0,
        c >= s0 ==> c * page >= s0 * page,
{
    assert(c * page - s0 * page == (c - s0) * page);
}

proof fn lemma_runs_prefix(a: Seq<bool>, b: Seq<bool>, lo: int, hi: int)
    requires
        0 <= lo <= hi <= a.len(),
        hi <= b.len(),
        forall|i: int| 0 <= i < hi ==> a[i] == b[i],
    ensures
        crate::memory::bitmap::runs(a, lo, hi) == crate::memory::bitmap::runs(b, lo, hi),
    decreases hi - lo,
{
    if hi > lo {
        lemma_runs_prefix(a, b, lo, hi - 1);
    }
}

/// Whether an address is in a range.
pub open spec fn within(x: int, gpa: int, size: int) -> bool {
    gpa <= x < gpa + size
}

/// A page changes only as a whole: what is asked of a range holds afterwards of
/// every address whose whole page is in the range, and nothing changes for any
/// other address. A range that runs past the last address changes nothing.
pub proof fn whole_pages_change(
    before: RamBlockAttributes,
    after: RamBlockAttributes,
    gpa: u64,
    size: u64,
    shared: bool,
    addr: u64,
)
    requires
        before.wf(),
        before.marks(&after, gpa as int, size as int, shared),
        before.spans(addr as int),
    ensures
        ({
            let first = addr - (addr - before.start()) % before.page();
            let inside = forall|x: int|
                first <= x < first + before.page() ==> #[trigger] within(x, gpa as int, size as int);
            &&& gpa + size <= u64::MAX && inside ==> after.shared_at(addr as int) == shared
            &&& !(gpa + size <= u64::MAX && inside) ==> after.shared_at(addr as int)
                == before.shared_at(addr as int)
        }),
{
    before.lemma_wf();
    let page = before.page();
    let rel = addr - before.start();
    let p = rel / page;
    lemma_page_below(rel, page, before.npages() as int);
    vstd::arithmetic::div_mod::lemma_fundamental_div_mod(rel, page);
    vstd::arithmetic::mul::lemma_mul_is_commutative(page, p);
    vstd::arithmetic::mul::lemma_mul_is_distributive_add_other_way(page, p, 1);
    let first = addr - rel % page;
    assert(first == before.page_start(p));
    assert(before.page_start(p + 1) == first + page);
    let inside = forall|x: int|
        first <= x < first + page ==> #[trigger] within(x, gpa as int, size as int);
    if inside {
        assert(within(first, gpa as int, size as int));
        assert(within(first + page - 1, gpa as int, size as int));
    }
}

/// The listed ranges are the shared pages of the range: a page that is wholly
/// inside lies in one of them if it is shared, and no other page meets any.
pub proof fn listed_ranges_are_the_shared_pages(
    a: RamBlockAttributes,
    gpa: u64,
    size: u64,
    out: Seq<(u64, u64)>,
    p: int,
)
    requires
        a.wf(),
        a.lists_shared(gpa as int, size as int, out),
        0 <= p < a.npages(),
    ensures
        a.covered(p, gpa as int, size as int) && a.shared()[p] ==> exists|i: int|
            0 <= i < out.len() && (#[trigger] out[i]).0 <= a.page_start(p) && a.page_start(p + 1)
                <= out[i].0 + out[i].1,
        !(a.covered(p, gpa as int, size as int) && a.shared()[p]) ==> forall|i: int|
            0 <= i < out.len() ==> a.page_start(p + 1) <= (#[trigger] out[i]).0 || out[i].0
                + out[i].1 <= a.page_start(p),
{
    a.lemma_wf();
    let (first, last) = choose|first: int, last: int|
        #![trigger a.covers_pages(gpa as int, size as int, first, last)]
        {
            let runs = crate::memory::bitmap::runs(a.shared(), first, last);
            &&& a.covers_pages(gpa as int, size as int, first, last)
            &&& out.len() == runs.len()
            &&& forall|i: int|
                0 <= i < out.len() ==> {
                    &&& (#[trigger] out[i]).0 == a.page_start(runs[i].0)
                    &&& out[i].1 == (runs[i].1 - runs[i].0) * a.page()
                }
        };
    let runs = crate::memory::bitmap::runs(a.shared(), first, last);
    crate::memory::bitmap::runs_are_maximal(a.shared(), first, last);
    assert(first <= p < last <==> a.covered(p, gpa as int, size as int));
    assert forall|i: int| 0 <= i < out.len() implies {
        &&& (#[trigger] out[i]).0 + out[i].1 == a.page_start(runs[i].1)
        &&& runs[i].0 <= p < runs[i].1 ==> out[i].0 <= a.page_start(p) && a.page_start(p + 1)
            <= out[i].0 + out[i].1
        &&& !(runs[i].0 <= p < runs[i].1) ==> a.page_start(p + 1) <= out[i].0 || out[i].0 + out[i].1
            <= a.page_start(p)
    } by {
        lemma_run_bounds(a.page(), runs[i].0, runs[i].1, p);
    }
    if a.covered(p, gpa as int, size as int) && a.shared()[p] {
        let i = choose|i: int|
            0 <= i < runs.len() && (#[trigger] runs[i]).0 <= p < runs[i].1;
        assert(out[i].0 <= a.page_start(p));
    } else {
        assert forall|i: int| 0 <= i < out.len() implies a.page_start(p + 1) <= (#[trigger] out[i]).0
            || out[i].0 + out[i].1 <= a.page_start(p) by {
            assert(crate::memory::bitmap::is_maximal_run(a.shared(), first, last, runs[i]));
        }
    }
}

proof fn lemma_run_bounds(page: int, lo: int, hi: int, p: int)
    by (nonlinear_arith)
    requires
        page > 0,
    ensures
        lo * page + (hi - lo) * page == hi * page,
        lo <= p ==> lo * page <= p * page,
        p < hi ==> (p + 1) * page <= hi * page,
        p < lo ==> (p + 1) * page <= lo * page,
        hi <= p ==> hi * page <= p * page,
{
}

} // verus!
