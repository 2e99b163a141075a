use vstd::prelude::*;

verus! {

broadcast use {vstd::std_specs::vec::group_vec_axioms, vstd::seq::group_seq_axioms};

/// Bytes in one page: the growth granularity of the linear memory.
pub const PAGE_SIZE: u64 = 65536;

/// Bytes reserved at the start of the bump arena for its header.
pub const HEADER_SIZE: u64 = 8;

/// The most pages a 32-bit linear memory can hold.
pub const MAX_PAGES: u64 = 65536;

pub fn page_size() -> (r: u64)
    ensures
        r == PAGE_SIZE,
{
    PAGE_SIZE
}

/// What the page primitives act on: the region's page count, its growth
/// ceiling, and the free list, whose last element is its head.
pub struct Heap {
    pub pages: u64,
    pub limit: u64,
    pub free: Seq<u64>,
}

/// `page_alloc` on a heap: the head of the free list if there is one,
/// else a new page at the end of the region, else nothing.
pub open spec fn alloc_step(h: Heap) -> (Heap, Option<u64>) {
    if h.free.len() > 0 {
        (Heap { free: h.free.drop_last(), ..h }, Some(h.free.last()))
    } else if h.pages < h.limit {
        (Heap { pages: (h.pages + 1) as u64, ..h }, Some((h.pages * PAGE_SIZE) as u64))
    } else {
        (h, None)
    }
}

/// `page_free` on a heap: the page becomes the head of the free list.
pub open spec fn free_step(h: Heap, page: u64) -> Heap {
    Heap { free: h.free.push(page), ..h }
}

/// The heap after `n` calls of `page_alloc`.
pub open spec fn alloc_n(h: Heap, n: nat) -> Heap
    decreases n,
{
    if n == 0 {
        h
    } else {
        alloc_step(alloc_n(h, (n - 1) as nat)).0
    }
}

/// The single growable linear memory and the two allocators over it: a
/// bump arena for small objects and a free list of whole pages. Addresses
/// are byte offsets into the region.
pub struct Runtime {
    pages: u64,
    limit: u64,
    arena: Option<u64>,
    top: u64,
    free: Vec<u64>,
}

impl Runtime {
    pub closed spec fn heap(&self) -> Heap {
        Heap { pages: self.pages, limit: self.limit, free: self.free@ }
    }

    /// Address of the bump arena's page, once `init` has run.
    pub closed spec fn arena(&self) -> Option<u64> {
        self.arena
    }

    /// Bytes handed out from the bump arena so far.
    pub closed spec fn top(&self) -> u64 {
        self.top
    }

    /// `page` is the address of a page inside the region.
    pub open spec fn is_page(&self, page: u64) -> bool {
        &&& page % PAGE_SIZE == 0
        &&& page < self.heap().pages * PAGE_SIZE
    }

    pub open spec fn wf(&self) -> bool {
        &&& self.heap().pages <= self.heap().limit <= MAX_PAGES
        &&& forall|i: int| 0 <= i < self.heap().free.len() ==> self.is_page(#[trigger] self.heap().free[i])
        &&& self.heap().free.no_duplicates()
        &&& self.arena() matches Some(a) ==> self.is_page(a) && !self.heap().free.contains(a)
        &&& self.top() <= PAGE_SIZE - HEADER_SIZE
    }

    /// A region of `initial` pages that may grow up to `limit` pages.
    pub fn new(initial: u64, limit: u64) -> (r: Runtime)
        requires
            initial <= limit <= MAX_PAGES,
        ensures
            r.wf(),
            r.heap() == (Heap { pages: initial, limit, free: Seq::empty() }),
            r.arena() is None,
    {
        Runtime { pages: initial, limit, arena: None, top: 0, free: Vec::new() }
    }

    /// Grows the region by one page; the old page count, or `None` at the
    /// ceiling.
    fn grow(&mut self) -> (r: Option<u64>)
        requires
            old(self).wf(),
        ensures
            final(self).wf(),
            old(self).heap().pages < old(self).heap().limit ==> r == Some(old(self).heap().pages)
                && final(self).heap() == (Heap { pages: (old(self).heap().pages + 1) as u64, ..old(self).heap() }),
            old(self).heap().pages >= old(self).heap().limit ==> r is None && final(self).heap() == old(self).heap(),
            final(self).arena() == old(self).arena(),
            final(self).top() == old(self).top(),
    {
        if self.pages < self.limit {
            let old_pages = self.pages;
            self.pages = self.pages + 1;
            proof {
                assert forall|i: int| 0 <= i < self.free@.len() implies self.is_page(#[trigger] self.free@[i]) by {
                    assert(self.free@[i] < old_pages * PAGE_SIZE);
                    assert(old_pages * PAGE_SIZE <= self.pages * PAGE_SIZE) by (nonlinear_arith)
                        requires old_pages <= self.pages;
                }
                if let Some(a) = self.arena {
                    assert(old_pages * PAGE_SIZE <= self.pages * PAGE_SIZE) by (nonlinear_arith)
                        requires old_pages <= self.pages;
                }
            }
            Some(old_pages)
        } else {
            None
        }
    }
}

/// Sets up the bump arena in a new page at the end of the region.
pub fn init(rt: &mut Runtime)
    requires
        old(rt).wf(),
        old(rt).arena() is None,
        old(rt).heap().pages < old(rt).heap().limit,
    ensures
        final(rt).wf(),
        final(rt).heap() == (Heap { pages: (old(rt).heap().pages + 1) as u64, ..old(rt).heap() }),
        final(rt).arena() == Some((old(rt).heap().pages * PAGE_SIZE) as u64),
        final(rt).top() == 0,
{
    let page = rt.grow().unwrap();
    proof {
        assert(page * PAGE_SIZE < rt.pages * PAGE_SIZE) by (nonlinear_arith)
            requires page < rt.pages;
        assert((page as int * 65536) % 65536 == 0) by (nonlinear_arith);
        assert(!rt.free@.contains((page * PAGE_SIZE) as u64)) by {
            if rt.free@.contains((page * PAGE_SIZE) as u64) {
                let i = choose|i: int| 0 <= i < rt.free@.len() && rt.free@[i] == (page * PAGE_SIZE) as u64;
                assert(rt.free@[i] < page * PAGE_SIZE);
            }
        }
    }
    rt.arena = Some(page * PAGE_SIZE);
    rt.top = 0;
}

/// Hands out `size` bytes at the arena's cursor and advances it.
pub fn bump_alloc(rt: &mut Runtime, size: u64) -> (r: u64)
    requires
        old(rt).wf(),
        old(rt).arena() is Some,
        old(rt).top() + size <= PAGE_SIZE - HEADER_SIZE,
    ensures
        final(rt).wf(),
        r == old(rt).arena()->0 + HEADER_SIZE + old(rt).top(),
        final(rt).top() == old(rt).top() + size,
        final(rt).heap() == old(rt).heap(),
        final(rt).arena() == old(rt).arena(),
{
    let arena = rt.arena.unwrap();
    let r = arena + HEADER_SIZE + rt.top;
    rt.top = rt.top + size;
    r
}

/// A whole page: the most recently freed one if any, else a new page; `None`
/// once the region cannot grow.
pub fn page_alloc(rt: &mut Runtime) -> (r: Option<u64>)
    requires
        old(rt).wf(),
    ensures
        final(rt).wf(),
        (final(rt).heap(), r) == alloc_step(old(rt).heap()),
        final(rt).arena() == old(rt).arena(),
        final(rt).top() == old(rt).top(),
        r matches Some(p) ==> final(rt).is_page(p) && !final(rt).heap().free.contains(p),
{
    if let Some(page) = rt.free.pop() {
        return Some(page);
    }
    match rt.grow() {
        Some(n) => {
            proof {
                assert(n * PAGE_SIZE < rt.pages * PAGE_SIZE) by (nonlinear_arith)
                    requires n < rt.pages;
                assert((n as int * 65536) % 65536 == 0) by (nonlinear_arith);
            }
            Some(n * PAGE_SIZE)
        },
        None => None,
    }
}

/// Returns a page to the head of the free list.
pub fn page_free(rt: &mut Runtime, page: u64)
    requires
        old(rt).wf(),
        old(rt).is_page(page),
        !old(rt).heap().free.contains(page),
        old(rt).arena() != Some(page),
    ensures
        final(rt).wf(),
        final(rt).heap() == free_step(old(rt).heap(), page),
        final(rt).arena() == old(rt).arena(),
        final(rt).top() == old(rt).top(),
{
    rt.free.push(page);
}

/// Bytes in the region: the page size times the page count.
pub fn memory_used(rt: &Runtime) -> (r: u64)
    requires
        rt.wf(),
    ensures
        r == PAGE_SIZE * rt.heap().pages,
{
    proof {
        assert(PAGE_SIZE * rt.pages <= PAGE_SIZE * MAX_PAGES) by (nonlinear_arith)
            requires rt.pages <= MAX_PAGES;
    }
    PAGE_SIZE * rt.pages
}

/// Freeing a page and then allocating one gives back that same page and
/// leaves the heap as it was: the free list is last in, first out.
pub proof fn lemma_page_recycling(h: Heap, page: u64)
    ensures
        alloc_step(free_step(h, page)) == (h, Some(page)),
{
    assert(free_step(h, page).free.drop_last() =~= h.free);
}

/// With an empty free list, each of `n` allocations that the ceiling allows
/// adds one page, so the region then holds `n` more pages; from an empty
/// region its size is `n` times the page size.
pub proof fn lemma_alloc_grows(h: Heap, n: nat)
    requires
        h.free.len() == 0,
        h.pages + n <= h.limit,
        h.limit <= MAX_PAGES,
    ensures
        alloc_n(h, n).pages == h.pages + n,
        alloc_n(h, n).free.len() == 0,
        alloc_n(h, n).limit == h.limit,
        n > 0 ==> alloc_step(alloc_n(h, (n - 1) as nat)).1 is Some,
        h.pages == 0 ==> PAGE_SIZE * alloc_n(h, n).pages == n * PAGE_SIZE,
    decreases n,
{
    if n > 0 {
        lemma_alloc_grows(h, (n - 1) as nat);
    }
}

/// Once the region has reached its ceiling and no page is free, every
/// further allocation fails and leaves the heap, free list included, as it
/// was.
pub proof fn lemma_exhaustion(h: Heap, n: nat)
    requires
        h.free.len() == 0,
        h.pages >= h.limit,
    ensures
        alloc_n(h, n) == h,
        alloc_step(alloc_n(h, n)) == (h, None::<u64>),
    decreases n,
{
    if n > 0 {
        lemma_exhaustion(h, (n - 1) as nat);
    }
}

} // verus!
