//! Pages of the catalog's card grid.
use vstd::prelude::*;
use core::ops::Range;

verus! {

/// A count that is at least one: a page size or a page number.
#[derive(Clone, Copy, Debug, PartialEq, Eq)]
pub struct PageSize {
    value: usize,
}

impl PageSize {
    #[verifier::type_invariant]
    spec fn positive(self) -> bool {
        self.value >= 1
    }

    pub closed spec fn spec_get(self) -> usize {
        self.value
    }

    /// The smallest count: one.
    pub fn one() -> (r: PageSize)
        ensures
            r.spec_get() == 1,
    {
        PageSize { value: 1 }
    }

    /// `Some` exactly when `value` is at least one.
    pub fn new(value: usize) -> (r: Option<PageSize>)
        ensures
            match r {
                Some(p) => value >= 1 && p.spec_get() == value,
                None => value == 0,
            },
    {
        if value == 0 {
            None
        } else {
            Some(PageSize { value })
        }
    }

    /// The count.
    pub fn get(self) -> (r: usize)
        ensures
            r == self.spec_get(),
            r >= 1,
    {
        proof {
            use_type_invariant(&self);
        }
        self.value
    }
}

/// The number of pages that `item_count` items fill at `page_size` items per page; an
/// empty catalog still has one (empty) page.
pub open spec fn page_count_of(item_count: nat, page_size: nat) -> nat {
    if item_count == 0 || page_size == 0 {
        1
    } else {
        ((item_count + page_size - 1) / page_size as int) as nat
    }
}

/// The first item shown on page `page_number`.
pub open spec fn page_start(item_count: nat, page_size: nat, page_number: nat) -> nat {
    let start = (page_number - 1) * page_size;
    if start < item_count {
        start as nat
    } else {
        item_count
    }
}

/// One past the last item shown on page `page_number`.
pub open spec fn page_end(item_count: nat, page_size: nat, page_number: nat) -> nat {
    let end = page_start(item_count, page_size, page_number) + page_size;
    if end < item_count {
        end as nat
    } else {
        item_count
    }
}

/// One page of `item_count` items, `page_size` per page.
#[derive(Clone, Copy, Debug, PartialEq, Eq)]
pub struct CatalogPage {
    item_count: usize,
    page_size: PageSize,
    page_number: PageSize,
}

impl CatalogPage {
    #[verifier::type_invariant]
    spec fn within_catalog(self) -> bool {
        self.page_number.spec_get() <= page_count_of(
            self.item_count as nat,
            self.page_size.spec_get() as nat,
        )
    }

    pub closed spec fn spec_item_count(self) -> usize {
        self.item_count
    }

    pub closed spec fn spec_page_size(self) -> usize {
        self.page_size.spec_get()
    }

    pub closed spec fn spec_page_number(self) -> usize {
        self.page_number.spec_get()
    }

    /// The number of pages of this catalog.
    pub open spec fn spec_page_count(self) -> nat {
        page_count_of(self.spec_item_count() as nat, self.spec_page_size() as nat)
    }

    /// A page lies within its catalog: its size is at least one and its number is between
    /// one and the page count. Every page built by `first`, `next` and `previous` is valid.
    pub open spec fn is_valid(self) -> bool {
        &&& self.spec_page_size() >= 1
        &&& 1 <= self.spec_page_number() <= self.spec_page_count()
    }

    closed spec fn with_number(self, page_number: usize) -> CatalogPage {
        CatalogPage { page_number: PageSize { value: page_number }, ..self }
    }

    /// The page after this one, unless this is the last.
    pub closed spec fn spec_next(self) -> Option<CatalogPage> {
        if self.spec_page_number() < self.spec_page_count() {
            Some(self.with_number((self.spec_page_number() + 1) as usize))
        } else {
            None
        }
    }

    /// The page before this one, unless this is the first.
    pub closed spec fn spec_previous(self) -> Option<CatalogPage> {
        if self.spec_page_number() > 1 {
            Some(self.with_number((self.spec_page_number() - 1) as usize))
        } else {
            None
        }
    }

    /// Going forward one page and back again returns to the same page.
    pub proof fn lemma_next_then_previous(self)
        requires
            self.is_valid(),
            self.spec_next() is Some,
        ensures
            self.spec_next().unwrap().spec_previous() == Some(self),
    {
        lemma_page_count_at_most_items(self.spec_item_count() as nat, self.spec_page_size() as nat);
        let q = self.spec_next().unwrap();
        assert(q.spec_page_number() == self.spec_page_number() + 1);
        assert(q.spec_previous().unwrap().page_number == self.page_number);
        assert(q.spec_previous().unwrap() == self);
    }

    /// Going back one page and forward again returns to the same page.
    pub proof fn lemma_previous_then_next(self)
        requires
            self.is_valid(),
            self.spec_previous() is Some,
        ensures
            self.spec_previous().unwrap().spec_next() == Some(self),
    {
        let q = self.spec_previous().unwrap();
        assert(q.spec_page_number() == self.spec_page_number() - 1);
        assert(q.spec_next().unwrap().page_number == self.page_number);
        assert(q.spec_next().unwrap() == self);
    }

    /// The first page.
    pub fn first(item_count: usize, page_size: PageSize) -> (r: CatalogPage)
        ensures
            r.spec_item_count() == item_count,
            r.spec_page_size() == page_size.spec_get(),
            r.spec_page_number() == 1,
            r.is_valid(),
    {
        proof {
            use_type_invariant(&page_size);
            lemma_page_count_positive(item_count as nat, page_size.spec_get() as nat);
        }
        CatalogPage { item_count, page_size, page_number: PageSize::one() }
    }

    /// The page number, counting from one.
    pub fn page_number(self) -> (r: PageSize)
        ensures
            r.spec_get() == self.spec_page_number(),
    {
        self.page_number
    }

    /// The number of pages.
    pub fn page_count(self) -> (r: PageSize)
        ensures
            r.spec_get() == self.spec_page_count(),
    {
        proof {
            use_type_invariant(&self.page_size);
        }
        let count = page_count(self.item_count, self.page_size.get());
        proof {
            lemma_page_count_positive(self.item_count as nat, self.spec_page_size() as nat);
        }
        match PageSize::new(count) {
            Some(p) => p,
            None => PageSize::one(),
        }
    }

    /// The items shown on this page: `start..end` with `start <= end <= item_count`.
    pub fn item_range(self) -> (r: Range<usize>)
        ensures
            r.start == page_start(
                self.spec_item_count() as nat,
                self.spec_page_size() as nat,
                self.spec_page_number() as nat,
            ),
            r.end == page_end(
                self.spec_item_count() as nat,
                self.spec_page_size() as nat,
                self.spec_page_number() as nat,
            ),
    {
        let size = self.page_size.get();
        let number = self.page_number.get();
        let product = saturating_mul(number - 1, size);
        let item_start = if product < self.item_count {
            product
        } else {
            self.item_count
        };
        let sum = item_start.saturating_add(size);
        let item_end = if sum < self.item_count {
            sum
        } else {
            self.item_count
        };
        item_start..item_end
    }

    /// The previous page, unless this is the first.
    pub fn previous(self) -> (r: Option<CatalogPage>)
        ensures
            match r {
                Some(p) => self.spec_page_number() > 1 && p.spec_page_number()
                    == self.spec_page_number() - 1 && p.spec_item_count()
                    == self.spec_item_count() && p.spec_page_size() == self.spec_page_size()
                    && p.is_valid(),
                None => self.spec_page_number() == 1,
            },
            r == self.spec_previous(),
    {
        proof {
            use_type_invariant(&self);
            use_type_invariant(&self.page_number);
        }
        match PageSize::new(self.page_number.get() - 1) {
            Some(page_number) => Some(CatalogPage { page_number, ..self }),
            None => None,
        }
    }

    /// The next page, unless this is the last.
    pub fn next(self) -> (r: Option<CatalogPage>)
        ensures
            match r {
                Some(p) => self.spec_page_number() < self.spec_page_count()
                    && p.spec_page_number() == self.spec_page_number() + 1 && p.spec_item_count()
                    == self.spec_item_count() && p.spec_page_size() == self.spec_page_size()
                    && p.is_valid(),
                None => self.spec_page_number() >= self.spec_page_count(),
            },
            r == self.spec_next(),
    {
        proof {
            use_type_invariant(&self);
            use_type_invariant(&self.page_number);
        }
        let count = self.page_count().get();
        let number = self.page_number.get();
        match number.checked_add(1) {
            Some(next) => {
                if next <= count {
                    match PageSize::new(next) {
                        Some(page_number) => Some(CatalogPage { page_number, ..self }),
                        None => None,
                    }
                } else {
                    None
                }
            },
            None => None,
        }
    }
}

proof fn lemma_page_count_positive(item_count: nat, page_size: nat)
    ensures
        page_count_of(item_count, page_size) >= 1,
{
    if item_count > 0 && page_size > 0 {
        assert((item_count + page_size - 1) / page_size as int >= 1) by (nonlinear_arith)
            requires
                item_count >= 1,
                page_size >= 1,
        ;
    }
}

/// The number of pages, computed without overflow.
fn page_count(item_count: usize, page_size: usize) -> (r: usize)
    requires
        page_size >= 1,
    ensures
        r == page_count_of(item_count as nat, page_size as nat),
{
    if item_count == 0 {
        return 1;
    }
    proof {
        vstd::arithmetic::div_mod::lemma_fundamental_div_mod(item_count as int, page_size as int);
    }
    let whole = item_count / page_size;
    let partial: usize = if item_count % page_size == 0 {
        0
    } else {
        1
    };
    proof {
        lemma_div_ceil(item_count as int, page_size as int);
        lemma_page_count_positive(item_count as nat, page_size as nat);
    }
    whole + partial
}

proof fn lemma_div_ceil(a: int, b: int)
    requires
        a >= 1,
        b >= 1,
    ensures
        (a + b - 1) / b == a / b + (if a % b == 0 {
            0int
        } else {
            1int
        }),
        a / b + (if a % b == 0 {
            0int
        } else {
            1int
        }) <= a,
{
    vstd::arithmetic::div_mod::lemma_fundamental_div_mod(a, b);
    vstd::arithmetic::div_mod::lemma_fundamental_div_mod(a + b - 1, b);
    let q = a / b;
    let r = a % b;
    assert(0 <= r < b);
    assert(b * q == q * b) by (nonlinear_arith);
    assert(a == q * b + r);
    if r == 0 {
        vstd::arithmetic::div_mod::lemma_fundamental_div_mod_converse(a + b - 1, b, q, b - 1);
    } else {
        assert((q + 1) * b == q * b + b) by (nonlinear_arith);
        vstd::arithmetic::div_mod::lemma_fundamental_div_mod_converse(a + b - 1, b, q + 1, r - 1);
    }
    assert(q * b <= a) by (nonlinear_arith)
        requires
            a == b * q + r,
            r >= 0,
    ;
    if r != 0 {
        assert(q + 1 <= a) by (nonlinear_arith)
            requires
                a == b * q + r,
                0 < r < b,
                b >= 1,
                q >= 0,
        ;
    } else {
        assert(q <= a) by (nonlinear_arith)
            requires
                a == b * q,
                b >= 1,
                q >= 0,
        ;
    }
}

/// `a * b`, or `usize::MAX` when the product does not fit.
fn saturating_mul(a: usize, b: usize) -> (r: usize)
    ensures
        r == if a * b <= usize::MAX {
            (a * b) as usize
        } else {
            usize::MAX
        },
{
    match a.checked_mul(b) {
        Some(p) => p,
        None => usize::MAX,
    }
}

proof fn lemma_page_count_at_most_items(item_count: nat, page_size: nat)
    requires
        page_size >= 1,
    ensures
        page_count_of(item_count, page_size) <= if item_count == 0 {
            1
        } else {
            item_count
        },
{
    if item_count > 0 {
        lemma_div_ceil(item_count as int, page_size as int);
    }
}

/// Bounds on the page count: the pages before the last do not hold every item, and all the
/// pages together hold at least every item.
proof fn lemma_page_count_bounds(item_count: nat, page_size: nat)
    requires
        item_count >= 1,
        page_size >= 1,
    ensures
        (page_count_of(item_count, page_size) - 1) * page_size < item_count,
        item_count <= page_count_of(item_count, page_size) * page_size,
{
    let c = item_count as int;
    let s = page_size as int;
    let n = page_count_of(item_count, page_size) as int;
    vstd::arithmetic::div_mod::lemma_fundamental_div_mod(c + s - 1, s);
    let rem = (c + s - 1) % s;
    assert(c + s - 1 == s * n + rem);
    assert(0 <= rem < s);
    assert((n - 1) * s < c) by (nonlinear_arith)
        requires
            c + s - 1 == s * n + rem,
            0 <= rem,
    ;
    assert(c <= n * s) by (nonlinear_arith)
        requires
            c + s - 1 == s * n + rem,
            rem < s,
    ;
}

/// Every valid page shows a range of items within the catalog, no longer than a page, and
/// never empty unless the catalog is.
pub proof fn lemma_page_range_bounds(item_count: nat, page_size: nat, page_number: nat)
    requires
        page_size >= 1,
        1 <= page_number <= page_count_of(item_count, page_size),
    ensures
        page_start(item_count, page_size, page_number) <= page_end(item_count, page_size, page_number) <= item_count,
        page_end(item_count, page_size, page_number) - page_start(item_count, page_size, page_number) <= page_size,
        item_count > 0 ==> page_start(item_count, page_size, page_number) < page_end(item_count, page_size, page_number),
{
    if item_count > 0 {
        lemma_page_count_bounds(item_count, page_size);
        let n = page_count_of(item_count, page_size) as int;
        let k = page_number as int;
        let s = page_size as int;
        assert((k - 1) * s <= (n - 1) * s) by (nonlinear_arith)
            requires
                k <= n,
                s >= 1,
        ;
    }
}

/// The pages tile the catalog: the first page starts at the first item, each page ends
/// where the next one starts, and the last page ends after the last item.
pub proof fn lemma_pages_tile_items(item_count: nat, page_size: nat, page_number: nat)
    requires
        page_size >= 1,
        1 <= page_number <= page_count_of(item_count, page_size),
    ensures
        page_start(item_count, page_size, 1) == 0,
        page_number < page_count_of(item_count, page_size) ==> page_end(item_count, page_size, page_number)
            == page_start(item_count, page_size, page_number + 1),
        page_number == page_count_of(item_count, page_size) ==> page_end(item_count, page_size, page_number)
            == item_count,
{
    let s = page_size as int;
    let k = page_number as int;
    if item_count == 0 {
        assert(page_number == 1);
    } else {
        lemma_page_count_bounds(item_count, page_size);
        let n = page_count_of(item_count, page_size) as int;
        assert((k - 1) * s + s == k * s) by (nonlinear_arith);
        if k < n {
            assert(k * s <= (n - 1) * s) by (nonlinear_arith)
                requires
                    k <= n - 1,
                    s >= 1,
            ;
        } else {
            assert(k * s >= item_count);
            assert((k - 1) * s < item_count);
        }
    }
}

} // verus!
