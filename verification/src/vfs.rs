//! The database handle and the entry points the embedded engine calls on it:
//! open, size, read, write, sync, truncate, lock, and chunk-size control.
//!
//! A [`Connection`] is one open handle. It owns nothing but its own lock
//! kind; the page store and the shared lock state are passed to each
//! operation explicitly, so that any number of handles can share them under
//! whatever mutual-exclusion guard the embedding provides. All reads and
//! writes are write-through against the store: `sync` has nothing left to do.

use vstd::prelude::*;
use vstd::string::StringExecFns;

use crate::lock::{lock_request, LockKind, LockState, WriteIntent};
use crate::pages::{
    intra_offset_of, page_index_of, pages_for_size, store_after_put, zero_page, PageStore,
};

verus! {

/// The errors a handle operation can fail with. A denied lock request is not
/// among them: that is a boolean retry signal, not an error.
#[derive(Clone, Copy, Debug, PartialEq, Eq, Structural)]
pub enum VfsError {
    /// The database name is not the single fixed name this adapter serves.
    NotFound,
    /// The open kind is not the main database (journals, write-ahead logs and
    /// temporary files are unsupported).
    PermissionDenied,
    /// A read asked for bytes past the pages the store holds.
    UnexpectedEof,
    /// A write was not page-aligned or not page-sized, or a chunk-size change
    /// was requested.
    BoundaryViolation,
}

/// What kind of object the engine asks to open.
#[derive(Clone, Copy, Debug, PartialEq, Eq, Structural)]
pub enum OpenKind {
    MainDb,
    MainJournal,
    TempDb,
    TempJournal,
    TransientDb,
    SubJournal,
    SuperJournal,
    Wal,
}

/// The access the engine asks to open an object with.
#[derive(Clone, Copy, Debug, PartialEq, Eq, Structural)]
pub enum OpenAccess {
    Read,
    Write,
    Create,
    CreateNew,
}

/// The options an open request carries.
#[derive(Clone, Copy, Debug, PartialEq, Eq, Structural)]
pub struct OpenOptions {
    pub kind: OpenKind,
    pub access: OpenAccess,
}

/// The write-ahead-log index of a handle. Write-ahead logging is unsupported
/// by this adapter, so the only value is the disabled one; durability rests
/// on write-through page writes alone.
#[derive(Clone, Copy, Debug, PartialEq, Eq, Structural)]
pub struct WalDisabled;

/// True when the store holds `len` pages of `page_size` bytes and a read of
/// `len` bytes at `offset` can be served: the page exists and the requested
/// bytes do not run past its end.
pub open spec fn read_in_bounds(
    pages: Seq<Seq<u8>>,
    offset: int,
    len: int,
    page_size: int,
) -> bool {
    &&& page_index_of(offset, page_size) < pages.len()
    &&& intra_offset_of(offset, page_size) + len <= page_size
}

/// The bytes a read of `len` bytes at `offset` returns.
pub open spec fn read_result(pages: Seq<Seq<u8>>, offset: int, len: int, page_size: int) -> Seq<
    u8,
> {
    pages[page_index_of(offset, page_size)].subrange(
        intra_offset_of(offset, page_size),
        intra_offset_of(offset, page_size) + len,
    )
}

/// One open connection to the single logical database: the engine's file
/// handle. Its mathematical value is the lock kind it currently holds.
pub struct Connection<const PAGE_SIZE: usize> {
    lock: LockKind,
}

impl<const PAGE_SIZE: usize> View for Connection<PAGE_SIZE> {
    type V = LockKind;

    closed spec fn view(&self) -> LockKind {
        self.lock
    }
}

impl<const PAGE_SIZE: usize> Connection<PAGE_SIZE> {
    /// The size of the database file the engine sees: whole pages only.
    pub fn size(&self, store: &PageStore<PAGE_SIZE>) -> (r: u64)
        requires
            store.wf(),
        ensures
            r as int == store@.len() * PAGE_SIZE as int,
    {
        (store.page_count() as u64) * (PAGE_SIZE as u64)
    }

    /// Read exactly `buf.len()` bytes at `offset`, entirely from the one page
    /// the offset falls in. Fails with `UnexpectedEof` — leaving the buffer
    /// untouched — when that page does not exist or holds fewer bytes past
    /// the intra-page offset than requested; the store is never silently
    /// zero-filled past the data it holds.
    pub fn read_exact_at(
        &mut self,
        store: &PageStore<PAGE_SIZE>,
        buf: &mut Vec<u8>,
        offset: u64,
    ) -> (r: Result<(), VfsError>)
        requires
            store.wf(),
        ensures
            final(self)@ == old(self)@,
            r is Ok <==> read_in_bounds(
                store@,
                offset as int,
                old(buf)@.len() as int,
                PAGE_SIZE as int,
            ),
            r is Ok ==> final(buf)@ == read_result(
                store@,
                offset as int,
                old(buf)@.len() as int,
                PAGE_SIZE as int,
            ),
            r is Err ==> final(buf)@ == old(buf)@ && r == Err::<(), VfsError>(
                VfsError::UnexpectedEof,
            ),
    {
        let ps = PAGE_SIZE as u64;
        let index = offset / ps;
        let intra = (offset % ps) as usize;
        if index >= store.page_count() as u64 {
            return Err(VfsError::UnexpectedEof);
        }
        let index = index as usize;
        let want = buf.len();
        if want > PAGE_SIZE - intra {
            return Err(VfsError::UnexpectedEof);
        }
        let page = store.get_page(index).unwrap();
        buf.clear();
        let mut i: usize = 0;
        while i < want
            invariant
                store.wf(),
                index < store@.len(),
                page@ == store@[index as int],
                intra + want <= PAGE_SIZE,
                i <= want,
                buf@.len() == i,
                forall|j: int| 0 <= j < i ==> buf@[j] == page@[intra + j],
            decreases want - i,
        {
            buf.push(page[intra + i]);
            i = i + 1;
        }
        proof {
            assert(buf@ =~= read_result(
                store@,
                offset as int,
                old(buf)@.len() as int,
                PAGE_SIZE as int,
            ));
        }
        Ok(())
    }

    /// Write one whole page at `offset`. The engine never issues sub-page or
    /// cross-page writes at this layer, so the offset must be page-aligned
    /// and the buffer exactly page-sized; any other request fails with
    /// `BoundaryViolation` and mutates nothing. The write goes through to the
    /// store immediately.
    pub fn write_all_at(
        &mut self,
        store: &mut PageStore<PAGE_SIZE>,
        buf: &Vec<u8>,
        offset: u64,
    ) -> (r: Result<(), VfsError>)
        requires
            old(store).wf(),
            (intra_offset_of(offset as int, PAGE_SIZE as int) == 0 && buf@.len() == PAGE_SIZE)
                ==> (offset as int + PAGE_SIZE as int <= u64::MAX as int && page_index_of(
                offset as int,
                PAGE_SIZE as int,
            ) <= usize::MAX as int),
        ensures
            final(self)@ == old(self)@,
            final(store).wf(),
            r is Ok <==> (intra_offset_of(offset as int, PAGE_SIZE as int) == 0 && buf@.len()
                == PAGE_SIZE),
            r is Ok ==> final(store)@ == store_after_put(
                old(store)@,
                page_index_of(offset as int, PAGE_SIZE as int),
                buf@,
                PAGE_SIZE as int,
            ),
            r is Err ==> final(store)@ == old(store)@ && r == Err::<(), VfsError>(
                VfsError::BoundaryViolation,
            ),
    {
        let ps = PAGE_SIZE as u64;
        if offset % ps > 0 {
            return Err(VfsError::BoundaryViolation);
        }
        if buf.len() != PAGE_SIZE {
            return Err(VfsError::BoundaryViolation);
        }
        let index = (offset / ps) as usize;
        proof {
            vstd::arithmetic::div_mod::lemma_fundamental_div_mod(offset as int, ps as int);
            assert(offset as int == (PAGE_SIZE as int) * (index as int));
            assert(((index as int) + 1) * (PAGE_SIZE as int) <= u64::MAX as int)
                by (nonlinear_arith)
                requires
                    offset as int == (PAGE_SIZE as int) * (index as int),
                    offset as int + PAGE_SIZE as int <= u64::MAX as int,
            ;
        }
        store.put_page(index, buf);
        Ok(())
    }

    /// Flush nothing: every write already went through to the store; the
    /// handle is left exactly as it was.
    pub fn sync(&mut self, data_only: bool) -> (r: Result<(), VfsError>)
        ensures
            final(self)@ == old(self)@,
            r is Ok,
    {
        let _ = data_only;
        Ok(())
    }

    /// Truncate the database to `size` bytes: compute how many pages that
    /// needs, rounded up, and delete every page with an index at or past that
    /// count — and none below it — from the top downwards. Growing is a no-op
    /// here: the store grows through writes.
    pub fn set_len(&mut self, store: &mut PageStore<PAGE_SIZE>, size: u64) -> (r: Result<
        (),
        VfsError,
    >)
        requires
            old(store).wf(),
        ensures
            final(self)@ == old(self)@,
            final(store).wf(),
            r is Ok,
            ({
                let target = pages_for_size(size as int, PAGE_SIZE as int);
                if target < old(store)@.len() {
                    final(store)@ == old(store)@.subrange(0, target)
                } else {
                    final(store)@ == old(store)@
                }
            }),
    {
        let ps = PAGE_SIZE as u64;
        let mut target = size / ps;
        if size % ps > 0 {
            proof {
                vstd::arithmetic::div_mod::lemma_div_is_ordered_by_denominator(
                    size as int,
                    2,
                    ps as int,
                );
                vstd::arithmetic::div_mod::lemma_div_is_ordered(
                    size as int,
                    u64::MAX as int,
                    2,
                );
            }
            target = target + 1;
        }
        while store.page_count() as u64 > target
            invariant
                store.wf(),
                store@.len() <= old(store)@.len(),
                target <= old(store)@.len() ==> target <= store@.len(),
                target > old(store)@.len() ==> store@.len() == old(store)@.len(),
                store@ =~= old(store)@.subrange(0, store@.len() as int),
            decreases store@.len(),
        {
            let last = store.page_count() - 1;
            store.del_page(last);
            proof {
                assert(store@ =~= old(store)@.subrange(0, store@.len() as int));
            }
        }
        proof {
            let t = pages_for_size(size as int, PAGE_SIZE as int);
            assert(target as int == t);
            if t >= old(store)@.len() {
                assert(store@ =~= old(store)@);
            }
        }
        Ok(())
    }

    /// Request a lock of kind `to`, stepping this handle and the shared state
    /// exactly as the transition table [`lock_request`] says, and report
    /// whether the request was granted. A denial is a retry signal for the
    /// engine's busy handler; this function never blocks or retries.
    ///
    /// The two preconditions are consistency of the handle with the shared
    /// state it participates in (a `Shared` holder is counted) and a machine
    /// limit on the reader counter.
    pub fn lock(&mut self, state: &mut LockState, to: LockKind) -> (granted: bool)
        requires
            old(self)@ is Shared ==> old(state).read >= 1,
            to is Shared ==> old(state).read < usize::MAX,
        ensures
            ({
                let step = lock_request(old(self)@, old(state)@, to);
                final(self)@ == step.lock && final(state)@ == step.state && granted
                    == step.granted
            }),
    {
        if to == self.lock {
            return true;
        }
        match to {
            LockKind::Unlocked => {
                if self.lock == LockKind::Shared {
                    state.read = state.read - 1;
                } else if self.lock.level_u8() > 1 {
                    state.write = None;
                }
                self.lock = LockKind::Unlocked;
                true
            },
            LockKind::Shared => {
                let excl_intent = match state.write {
                    Some(w) => w == WriteIntent::Exclusive,
                    None => false,
                };
                if excl_intent && self.lock.level_u8() <= 1 {
                    return false;
                }
                state.read = state.read + 1;
                if self.lock.level_u8() > 1 {
                    state.write = None;
                }
                self.lock = LockKind::Shared;
                true
            },
            LockKind::Reserved => {
                if state.write.is_some() || !(self.lock == LockKind::Shared) {
                    return false;
                }
                state.read = state.read - 1;
                state.write = Some(WriteIntent::Reserved);
                self.lock = LockKind::Reserved;
                true
            },
            LockKind::Pending => false,
            LockKind::Exclusive => {
                if state.write.is_some() && self.lock.level_u8() <= 1 {
                    return false;
                }
                if self.lock == LockKind::Shared {
                    state.read = state.read - 1;
                }
                state.write = Some(WriteIntent::Exclusive);
                if state.read == 0 {
                    self.lock = LockKind::Exclusive;
                    true
                } else {
                    self.lock = LockKind::Pending;
                    false
                }
            },
        }
    }

    /// True when this handle plans to write (it holds a kind above `Shared`)
    /// or the shared state records any handle's write intent.
    pub fn reserved(&self, state: &LockState) -> (r: bool)
        ensures
            r == (self@.over_shared() || state.write is Some),
    {
        if self.lock.level_u8() > 1 {
            true
        } else {
            state.write.is_some()
        }
    }

    /// The lock kind this handle currently holds.
    pub fn current_lock(&self) -> (r: LockKind)
        ensures
            r == self@,
    {
        self.lock
    }

    /// The handle's write-ahead-log index: always disabled.
    pub fn wal_index(&self, readonly: bool) -> (r: WalDisabled)
        ensures
            r == WalDisabled,
    {
        let _ = readonly;
        WalDisabled
    }

    /// Accept a chunk size equal to the page size and nothing else: the
    /// storage granularity is fixed for the lifetime of the database and
    /// cannot be renegotiated.
    pub fn set_chunk_size(&self, chunk_size: usize) -> (r: Result<(), VfsError>)
        ensures
            r is Ok <==> chunk_size == PAGE_SIZE,
            r is Err ==> r == Err::<(), VfsError>(VfsError::BoundaryViolation),
    {
        if chunk_size != PAGE_SIZE {
            Err(VfsError::BoundaryViolation)
        } else {
            Ok(())
        }
    }
}

/// The virtual filesystem serving the single fixed logical database. It owns
/// the lock state every handle opened through it shares.
pub struct PagesVfs<const PAGE_SIZE: usize> {
    pub lock_state: LockState,
}

impl<const PAGE_SIZE: usize> PagesVfs<PAGE_SIZE> {
    /// A fresh filesystem with no readers and no write intent.
    pub fn new() -> (r: Self)
        ensures
            r.lock_state@.read == 0,
            r.lock_state@.write is None,
    {
        PagesVfs { lock_state: LockState::new() }
    }

    /// Open a handle. Only the single fixed database name is served
    /// (`NotFound` otherwise), and only the main database can be opened:
    /// journals, write-ahead logs and temporary files are unsupported
    /// (`PermissionDenied`). A fresh handle holds no lock.
    pub fn open(&self, db: &str, opts: OpenOptions) -> (r: Result<
        Connection<PAGE_SIZE>,
        VfsError,
    >)
        ensures
            r is Ok <==> (db@ == "main.db"@ && opts.kind == OpenKind::MainDb),
            r is Ok ==> r.unwrap()@ == LockKind::Unlocked,
            db@ != "main.db"@ ==> r == Err::<Connection<PAGE_SIZE>, VfsError>(VfsError::NotFound),
            db@ == "main.db"@ && opts.kind != OpenKind::MainDb ==> r == Err::<
                Connection<PAGE_SIZE>,
                VfsError,
            >(VfsError::PermissionDenied),
    {
        if !(db.to_owned() == String::from_str("main.db")) {
            return Err(VfsError::NotFound);
        }
        if !(opts.kind == OpenKind::MainDb) {
            return Err(VfsError::PermissionDenied);
        }
        Ok(Connection { lock: LockKind::Unlocked })
    }

    /// Delete a database file: only journals and write-ahead logs are ever
    /// deleted, and neither is implemented, so there is nothing to do.
    pub fn delete(&self, db: &str) -> (r: Result<(), VfsError>)
        ensures
            r is Ok,
    {
        let _ = db;
        Ok(())
    }

    /// Whether a database exists: only the fixed name, and only once at least
    /// one page has been written.
    pub fn db_exists(&self, db: &str, store: &PageStore<PAGE_SIZE>) -> (r: Result<bool, VfsError>)
        ensures
            r is Ok,
            r.unwrap() == (db@ == "main.db"@ && store@.len() > 0),
    {
        let named = db.to_owned() == String::from_str("main.db");
        Ok(named && store.page_count() > 0)
    }

    /// The name a temporary database would get: the fixed name, since no
    /// other file is ever served.
    pub fn temporary_name(&self) -> (r: String)
        ensures
            r@ == "main.db"@,
    {
        String::from_str("main.db")
    }

    /// Fill the buffer with random bytes for the engine.
    ///
    /// Relies on `rand::fill`, which overwrites every element of the slice in
    /// place and cannot change its length; nothing can be promised of the
    /// values drawn.
    #[verifier::external_body]
    pub fn random(&self, buffer: &mut Vec<i8>)
        ensures
            final(buffer)@.len() == old(buffer)@.len(),
    {
        rand::fill(buffer.as_mut_slice());
    }
}


/// Round trip: for every page index `i` and every buffer `b` of exactly
/// `page_size` bytes, writing `b` as page `i` and then reading `page_size`
/// bytes back at the page-aligned offset `i * page_size` succeeds and
/// returns exactly `b` — whatever the store held before.
pub proof fn lemma_write_read_round_trip(
    pages: Seq<Seq<u8>>,
    i: int,
    b: Seq<u8>,
    page_size: int,
)
    requires
        0 < page_size,
        0 <= i,
        b.len() == page_size,
    ensures
        read_in_bounds(store_after_put(pages, i, b, page_size), i * page_size, page_size, page_size),
        read_result(store_after_put(pages, i, b, page_size), i * page_size, page_size, page_size)
            == b,
{
    let written = store_after_put(pages, i, b, page_size);
    vstd::arithmetic::div_mod::lemma_div_multiples_vanish(i, page_size);
    vstd::arithmetic::div_mod::lemma_mod_multiples_basic(i, page_size);
    assert(i * page_size == page_size * i) by (nonlinear_arith);
    assert(page_index_of(i * page_size, page_size) == i);
    assert(intra_offset_of(i * page_size, page_size) == 0);
    if i < pages.len() {
        assert(written[i] == b);
    } else {
        assert(written[i] == Seq::new(
            (i - pages.len()) as nat,
            |j: int| zero_page(page_size),
        ).push(b)[i - pages.len()]);
    }
    assert(read_result(written, i * page_size, page_size, page_size) =~= b);
}

} // verus!
