//! The page store: fixed-size pages addressed by a non-negative index, the
//! granularity of all storage the adapter performs.
//!
//! The store is authoritative for the database content. Every page holds
//! exactly `PAGE_SIZE` bytes; the store grows when a page is put one past the
//! end (or further, in which case the gap is filled with zero pages) and
//! shrinks only from the top, one page at a time.

use vstd::prelude::*;
use vstd::pervasive::VecAdditionalExecFns;

verus! {

/// The page index a byte offset falls in.
pub open spec fn page_index_of(offset: int, page_size: int) -> int {
    offset / page_size
}

/// The position of a byte offset within its page.
pub open spec fn intra_offset_of(offset: int, page_size: int) -> int {
    offset % page_size
}

/// Number of pages needed to hold `size` bytes: `size / page_size`, rounded
/// up.
pub open spec fn pages_for_size(size: int, page_size: int) -> int {
    if size % page_size == 0 {
        size / page_size
    } else {
        size / page_size + 1
    }
}

/// A page holding `page_size` zero bytes.
pub open spec fn zero_page(page_size: int) -> Seq<u8> {
    Seq::new(page_size as nat, |i: int| 0u8)
}

/// The store content after putting `data` at page index `ix`: an existing
/// page is replaced; a page at or past the end extends the store, with any
/// gap filled by zero pages.
pub open spec fn store_after_put(
    pages: Seq<Seq<u8>>,
    ix: int,
    data: Seq<u8>,
    page_size: int,
) -> Seq<Seq<u8>> {
    if ix < pages.len() {
        pages.update(ix, data)
    } else {
        pages + Seq::new((ix - pages.len()) as nat, |j: int| zero_page(page_size)).push(data)
    }
}

/// A durable store of whole pages, each of exactly `PAGE_SIZE` bytes,
/// addressed by index. Its mathematical value is the sequence of page
/// contents.
pub struct PageStore<const PAGE_SIZE: usize> {
    pages: Vec<Vec<u8>>,
}

impl<const PAGE_SIZE: usize> View for PageStore<PAGE_SIZE> {
    type V = Seq<Seq<u8>>;

    closed spec fn view(&self) -> Seq<Seq<u8>> {
        Seq::new(self.pages@.len(), |i: int| self.pages@[i]@)
    }
}

impl<const PAGE_SIZE: usize> PageStore<PAGE_SIZE> {
    /// Well-formedness: pages are page-sized, the page size is positive, and
    /// the total byte size fits in a `u64`.
    pub open spec fn wf(&self) -> bool {
        &&& 0 < PAGE_SIZE
        &&& self@.len() * PAGE_SIZE <= u64::MAX
        &&& forall|i: int| 0 <= i < self@.len() ==> (#[trigger] self@[i]).len() == PAGE_SIZE
    }

    /// An empty store.
    pub fn new() -> (r: Self)
        requires
            0 < PAGE_SIZE,
        ensures
            r.wf(),
            r@ == Seq::<Seq<u8>>::empty(),
    {
        let r = PageStore { pages: Vec::new() };
        proof {
            assert(r@ =~= Seq::<Seq<u8>>::empty());
        }
        r
    }

    /// How many pages the store currently holds.
    pub fn page_count(&self) -> (n: usize)
        ensures
            n == self@.len(),
    {
        self.pages.len()
    }

    /// The page at index `ix`, if the store holds one.
    pub fn get_page(&self, ix: usize) -> (r: Option<&Vec<u8>>)
        ensures
            r is Some <==> ix < self@.len(),
            r is Some ==> r.unwrap()@ == self@[ix as int],
    {
        if ix < self.pages.len() {
            Some(&self.pages[ix])
        } else {
            None
        }
    }

    /// Persist `data` as the page at index `ix`, extending the store (zero
    /// pages first, if the index leaves a gap) when `ix` is at or past the
    /// end.
    pub fn put_page(&mut self, ix: usize, data: &Vec<u8>)
        requires
            old(self).wf(),
            data@.len() == PAGE_SIZE,
            (ix as int + 1) * (PAGE_SIZE as int) <= u64::MAX as int,
        ensures
            final(self).wf(),
            final(self)@ == store_after_put(old(self)@, ix as int, data@, PAGE_SIZE as int),
    {
        let page = clone_page(data);
        if ix < self.pages.len() {
            self.pages.set(ix, page);
            proof {
                assert(self@ =~= old(self)@.update(ix as int, data@));
                lemma_mul_le(self@.len() as int, old(self)@.len() as int, PAGE_SIZE as int);
            }
        } else {
            while self.pages.len() < ix
                invariant
                    old(self).wf(),
                    data@.len() == PAGE_SIZE,
                    (ix as int + 1) * (PAGE_SIZE as int) <= u64::MAX as int,
                    old(self)@.len() <= self@.len() <= ix,
                    forall|k: int| 0 <= k < old(self)@.len() ==> self@[k] == old(self)@[k],
                    forall|k: int|
                        old(self)@.len() <= k < self@.len() ==> self@[k] == zero_page(
                            PAGE_SIZE as int,
                        ),
                decreases ix - self.pages.len(),
            {
                let ghost prev = self@;
                let z = zero_page_vec::<PAGE_SIZE>();
                self.pages.push(z);
                proof {
                    assert forall|k: int| 0 <= k < prev.len() implies self@[k] == prev[k] by {
                        assert(self.pages@[k]@ == prev[k]);
                    }
                    assert(self@[prev.len() as int] == z@);
                    assert forall|k: int|
                        old(self)@.len() <= k < self@.len() implies self@[k] == zero_page(
                        PAGE_SIZE as int,
                    ) by {
                        if k < prev.len() {
                            assert(self@[k] == prev[k]);
                        } else {
                            assert(k == prev.len());
                            assert(self@[k] == z@);
                        }
                    }
                }
            }
            let ghost grown = self@;
            self.pages.push(page);
            proof {
                let target = store_after_put(old(self)@, ix as int, data@, PAGE_SIZE as int);
                assert forall|k: int| 0 <= k < grown.len() implies self@[k] == grown[k] by {
                    assert(self.pages@[k]@ == grown[k]);
                }
                assert(self@[ix as int] == page@);
                assert(target.len() == ix + 1);
                assert forall|k: int| 0 <= k < self@.len() implies self@[k] == target[k] by {
                    if k < old(self)@.len() {
                        assert(self@[k] == grown[k]);
                        assert(target[k] == old(self)@[k]);
                    } else if k < ix {
                        assert(self@[k] == grown[k]);
                        assert(grown[k] == zero_page(PAGE_SIZE as int));
                        assert(target[k] == Seq::new(
                            (ix - old(self)@.len()) as nat,
                            |j: int| zero_page(PAGE_SIZE as int),
                        ).push(data@)[k - old(self)@.len()]);
                    } else {
                        assert(k == ix);
                        assert(target[k] == data@);
                    }
                }
                assert(self@ =~= target);
            }
        }
    }

    /// Delete the page at index `ix`, which must be the last one: the store
    /// only ever shrinks from the top.
    pub fn del_page(&mut self, ix: usize)
        requires
            old(self).wf(),
            old(self)@.len() > 0,
            ix as int == old(self)@.len() - 1,
        ensures
            final(self).wf(),
            final(self)@ == old(self)@.drop_last(),
    {
        self.pages.truncate(ix);
        proof {
            assert(self@ =~= old(self)@.drop_last());
            lemma_mul_le(self@.len() as int, old(self)@.len() as int, PAGE_SIZE as int);
        }
    }
}

/// A product with a smaller left factor is no larger.
proof fn lemma_mul_le(a: int, b: int, c: int)
    requires
        0 <= a <= b,
        0 <= c,
    ensures
        a * c <= b * c,
{
    vstd::arithmetic::mul::lemma_mul_inequality(a, b, c);
}

/// A fresh all-zero page of `PAGE_SIZE` bytes.
fn zero_page_vec<const PAGE_SIZE: usize>() -> (r: Vec<u8>)
    ensures
        r@ == zero_page(PAGE_SIZE as int),
{
    let r = vec![0u8; PAGE_SIZE];
    proof {
        assert(r@ =~= zero_page(PAGE_SIZE as int));
    }
    r
}

/// A copy of a page buffer with the same bytes.
fn clone_page(data: &Vec<u8>) -> (r: Vec<u8>)
    ensures
        r@ == data@,
{
    let r = data.clone();
    proof {
        assert(r@ =~= data@);
    }
    r
}

} // verus!
