use pages_vfs::lock::{LockKind, LockState};
use pages_vfs::pages::PageStore;
use pages_vfs::vfs::{Connection, OpenAccess, OpenKind, OpenOptions, PagesVfs, VfsError, WalDisabled};

const PAGE_SIZE: usize = 4096;

fn open_handle(vfs: &PagesVfs<PAGE_SIZE>) -> Connection<PAGE_SIZE> {
    vfs.open(
        "main.db",
        OpenOptions { kind: OpenKind::MainDb, access: OpenAccess::Create },
    )
    .expect("open main database")
}

fn setup() -> (PagesVfs<PAGE_SIZE>, PageStore<PAGE_SIZE>) {
    (PagesVfs::new(), PageStore::new())
}

#[test]
fn scenario_a_write_zero_page_and_read_back() {
    let (vfs, mut store) = setup();
    let mut conn = open_handle(&vfs);

    let zeros = vec![0u8; PAGE_SIZE];
    conn.write_all_at(&mut store, &zeros, 0).expect("page-aligned write");
    assert_eq!(store.page_count(), 1);

    let mut buf = vec![1u8; PAGE_SIZE];
    conn.read_exact_at(&store, &mut buf, 0).expect("read page back");
    assert_eq!(buf, zeros);
}

#[test]
fn round_trip_arbitrary_page() {
    let (vfs, mut store) = setup();
    let mut conn = open_handle(&vfs);

    let mut page = vec![0u8; PAGE_SIZE];
    for (i, b) in page.iter_mut().enumerate() {
        *b = (i % 251) as u8;
    }
    // Page index 3: the gap below is zero-filled.
    conn.write_all_at(&mut store, &page, 3 * PAGE_SIZE as u64).expect("write");
    assert_eq!(store.page_count(), 4);

    let mut buf = vec![0u8; PAGE_SIZE];
    conn.read_exact_at(&store, &mut buf, 3 * PAGE_SIZE as u64).expect("read");
    assert_eq!(buf, page);

    let mut gap = vec![9u8; PAGE_SIZE];
    conn.read_exact_at(&store, &mut gap, PAGE_SIZE as u64).expect("gap page exists");
    assert!(gap.iter().all(|&b| b == 0));
}

#[test]
fn scenario_e_unaligned_write_fails_and_mutates_nothing() {
    let (vfs, mut store) = setup();
    let mut conn = open_handle(&vfs);

    let page = vec![7u8; PAGE_SIZE];
    conn.write_all_at(&mut store, &page, 0).expect("aligned write");

    let r = conn.write_all_at(&mut store, &page, 17);
    assert_eq!(r, Err(VfsError::BoundaryViolation));
    assert_eq!(store.page_count(), 1);
    let mut buf = vec![0u8; PAGE_SIZE];
    conn.read_exact_at(&store, &mut buf, 0).expect("read");
    assert_eq!(buf, page);
}

#[test]
fn wrong_sized_write_fails() {
    let (vfs, mut store) = setup();
    let mut conn = open_handle(&vfs);

    let short = vec![7u8; PAGE_SIZE - 1];
    let r = conn.write_all_at(&mut store, &short, 0);
    assert_eq!(r, Err(VfsError::BoundaryViolation));
    assert_eq!(store.page_count(), 0);
}

#[test]
fn read_missing_page_is_unexpected_eof() {
    let (vfs, store) = setup();
    let mut conn = open_handle(&vfs);

    let mut buf = vec![3u8; 16];
    let r = conn.read_exact_at(&store, &mut buf, 0);
    assert_eq!(r, Err(VfsError::UnexpectedEof));
    // The buffer is untouched on failure.
    assert_eq!(buf, vec![3u8; 16]);
}

#[test]
fn read_past_page_end_is_unexpected_eof() {
    let (vfs, mut store) = setup();
    let mut conn = open_handle(&vfs);

    let page = vec![5u8; PAGE_SIZE];
    conn.write_all_at(&mut store, &page, 0).expect("write");

    // 8 bytes starting 4 bytes before the page end run past it.
    let mut buf = vec![0u8; 8];
    let offset = (PAGE_SIZE - 4) as u64;
    let r = conn.read_exact_at(&store, &mut buf, offset);
    assert_eq!(r, Err(VfsError::UnexpectedEof));

    // A sub-page read inside the page succeeds.
    let r = conn.read_exact_at(&store, &mut buf, 16);
    assert_eq!(r, Ok(()));
    assert_eq!(buf, vec![5u8; 8]);
}

#[test]
fn size_counts_whole_pages() {
    let (vfs, mut store) = setup();
    let mut conn = open_handle(&vfs);

    assert_eq!(conn.size(&store), 0);
    let page = vec![0u8; PAGE_SIZE];
    conn.write_all_at(&mut store, &page, 0).expect("write");
    conn.write_all_at(&mut store, &page, PAGE_SIZE as u64).expect("write");
    assert_eq!(conn.size(&store), 2 * PAGE_SIZE as u64);
}

#[test]
fn truncation_deletes_exactly_the_pages_past_the_new_count() {
    let (vfs, mut store) = setup();
    let mut conn = open_handle(&vfs);

    for i in 0..4u64 {
        let page = vec![i as u8 + 1; PAGE_SIZE];
        conn.write_all_at(&mut store, &page, i * PAGE_SIZE as u64).expect("write");
    }

    // One byte more than a page needs two pages: pages 2 and 3 go, 0 and 1 stay.
    conn.set_len(&mut store, PAGE_SIZE as u64 + 1).expect("set_len");
    assert_eq!(store.page_count(), 2);
    let mut buf = vec![0u8; PAGE_SIZE];
    conn.read_exact_at(&store, &mut buf, 0).expect("read");
    assert_eq!(buf, vec![1u8; PAGE_SIZE]);
    conn.read_exact_at(&store, &mut buf, PAGE_SIZE as u64).expect("read");
    assert_eq!(buf, vec![2u8; PAGE_SIZE]);

    // Growing through set_len changes nothing.
    conn.set_len(&mut store, 10 * PAGE_SIZE as u64).expect("set_len");
    assert_eq!(store.page_count(), 2);

    // Truncating to zero bytes deletes every page.
    conn.set_len(&mut store, 0).expect("set_len");
    assert_eq!(store.page_count(), 0);
}

#[test]
fn scenario_chunk_size_succeeds_only_at_page_size() {
    let (vfs, _store) = setup();
    let conn = open_handle(&vfs);

    assert_eq!(conn.set_chunk_size(PAGE_SIZE), Ok(()));
    assert_eq!(conn.set_chunk_size(PAGE_SIZE / 2), Err(VfsError::BoundaryViolation));
    assert_eq!(conn.set_chunk_size(2 * PAGE_SIZE), Err(VfsError::BoundaryViolation));
    assert_eq!(conn.set_chunk_size(0), Err(VfsError::BoundaryViolation));
}

#[test]
fn sync_is_a_no_op_success() {
    let (vfs, _store) = setup();
    let mut conn = open_handle(&vfs);
    assert_eq!(conn.sync(true), Ok(()));
    assert_eq!(conn.sync(false), Ok(()));
}

#[test]
fn wal_index_is_disabled() {
    let (vfs, _store) = setup();
    let conn = open_handle(&vfs);
    assert_eq!(conn.wal_index(true), WalDisabled);
    assert_eq!(conn.wal_index(false), WalDisabled);
}

#[test]
fn open_rejects_other_names_and_kinds() {
    let (vfs, _store) = setup();

    let r = vfs.open(
        "other.db",
        OpenOptions { kind: OpenKind::MainDb, access: OpenAccess::Create },
    );
    assert!(matches!(r, Err(VfsError::NotFound)));

    let r = vfs.open(
        "main.db",
        OpenOptions { kind: OpenKind::MainJournal, access: OpenAccess::Create },
    );
    assert!(matches!(r, Err(VfsError::PermissionDenied)));

    let r = vfs.open(
        "main.db",
        OpenOptions { kind: OpenKind::Wal, access: OpenAccess::Create },
    );
    assert!(matches!(r, Err(VfsError::PermissionDenied)));

    let conn = open_handle(&vfs);
    assert_eq!(conn.current_lock(), LockKind::Unlocked);
}

#[test]
fn exists_needs_the_fixed_name_and_a_page() {
    let (vfs, mut store) = setup();
    let mut conn = open_handle(&vfs);

    assert_eq!(vfs.db_exists("main.db", &store), Ok(false));
    let page = vec![0u8; PAGE_SIZE];
    conn.write_all_at(&mut store, &page, 0).expect("write");
    assert_eq!(vfs.db_exists("main.db", &store), Ok(true));
    assert_eq!(vfs.db_exists("other.db", &store), Ok(false));
}

#[test]
fn delete_is_a_no_op_success() {
    let (vfs, _store) = setup();
    assert_eq!(vfs.delete("main.db-journal"), Ok(()));
}

#[test]
fn temporary_name_is_the_fixed_name() {
    let (vfs, _store) = setup();
    assert_eq!(vfs.temporary_name(), "main.db");
}

#[test]
fn random_preserves_the_buffer_length() {
    let (vfs, _store) = setup();
    let mut buf = vec![0i8; 32];
    vfs.random(&mut buf);
    assert_eq!(buf.len(), 32);
}

#[test]
fn scenario_b_exclusive_waits_out_a_reader() {
    let vfs: PagesVfs<PAGE_SIZE> = PagesVfs::new();
    let mut state = LockState::new();
    let mut h1 = open_handle(&vfs);
    let mut h2 = open_handle(&vfs);

    assert!(h1.lock(&mut state, LockKind::Shared));
    assert!(!h2.lock(&mut state, LockKind::Exclusive));
    assert_eq!(h2.current_lock(), LockKind::Pending);

    assert!(h1.lock(&mut state, LockKind::Unlocked));
    assert!(h2.lock(&mut state, LockKind::Exclusive));
    assert_eq!(h2.current_lock(), LockKind::Exclusive);
}

#[test]
fn scenario_c_reserved_needs_shared_first() {
    let vfs: PagesVfs<PAGE_SIZE> = PagesVfs::new();
    let mut state = LockState::new();
    let mut h = open_handle(&vfs);

    assert!(!h.lock(&mut state, LockKind::Reserved));
    assert_eq!(h.current_lock(), LockKind::Unlocked);
}

#[test]
fn transition_table_cells() {
    let vfs: PagesVfs<PAGE_SIZE> = PagesVfs::new();
    let mk = || open_handle(&vfs);

    // Requesting the current kind again is a no-op success.
    let mut state = LockState::new();
    let mut h = mk();
    assert!(h.lock(&mut state, LockKind::Unlocked));
    assert_eq!(h.current_lock(), LockKind::Unlocked);
    assert_eq!(state.read, 0);

    // Shared counts a reader; releasing it counts down.
    assert!(h.lock(&mut state, LockKind::Shared));
    assert_eq!(state.read, 1);
    assert!(h.lock(&mut state, LockKind::Shared));
    assert_eq!(state.read, 1);
    assert!(h.lock(&mut state, LockKind::Unlocked));
    assert_eq!(state.read, 0);

    // Pending can never be requested directly.
    assert!(!h.lock(&mut state, LockKind::Pending));
    assert_eq!(h.current_lock(), LockKind::Unlocked);

    // Reserved from Shared stops counting the reader and records intent;
    // new readers may still arrive, but a second write intent may not.
    assert!(h.lock(&mut state, LockKind::Shared));
    assert!(h.lock(&mut state, LockKind::Reserved));
    assert_eq!(h.current_lock(), LockKind::Reserved);
    assert_eq!(state.read, 0);
    assert!(h.reserved(&state));
    let mut r = mk();
    assert!(r.lock(&mut state, LockKind::Shared));
    assert!(!r.lock(&mut state, LockKind::Reserved));
    assert_eq!(r.current_lock(), LockKind::Shared);

    // Exclusive from Reserved with a reader still counted becomes Pending and
    // is denied; once the reader leaves, the retried request is granted.
    assert!(!h.lock(&mut state, LockKind::Exclusive));
    assert_eq!(h.current_lock(), LockKind::Pending);
    assert!(r.lock(&mut state, LockKind::Unlocked));
    assert!(h.lock(&mut state, LockKind::Exclusive));
    assert_eq!(h.current_lock(), LockKind::Exclusive);
    assert_eq!(state.read, 0);

    // No new reader while exclusive intent is recorded.
    let mut s = mk();
    assert!(!s.lock(&mut state, LockKind::Shared));
    assert_eq!(s.current_lock(), LockKind::Unlocked);

    // The exclusive holder stepping down to Shared clears the intent.
    assert!(h.lock(&mut state, LockKind::Shared));
    assert_eq!(h.current_lock(), LockKind::Shared);
    assert_eq!(state.read, 1);
    assert!(!h.reserved(&state));
    assert!(s.lock(&mut state, LockKind::Shared));
    assert_eq!(state.read, 2);

    // Releasing a kind above Shared clears the intent.
    assert!(s.lock(&mut state, LockKind::Reserved));
    assert!(s.lock(&mut state, LockKind::Unlocked));
    assert!(!h.reserved(&state));
    assert_eq!(state.read, 1);

    // Exclusive straight from Unlocked with no readers is granted.
    assert!(h.lock(&mut state, LockKind::Unlocked));
    assert_eq!(state.read, 0);
    let mut e = mk();
    assert!(e.lock(&mut state, LockKind::Exclusive));
    assert_eq!(e.current_lock(), LockKind::Exclusive);

    // Exclusive is denied to anyone else while it is held.
    let mut x = mk();
    assert!(!x.lock(&mut state, LockKind::Exclusive));
    assert_eq!(x.current_lock(), LockKind::Unlocked);
}

#[test]
fn reserved_reports_any_write_intent() {
    let mut state = LockState::new();
    let vfs: PagesVfs<PAGE_SIZE> = PagesVfs::new();
    let mk = || open_handle(&vfs);
    let mut h1 = mk();
    let h2 = mk();
    assert!(!h1.reserved(&state));
    assert!(!h2.reserved(&state));
    assert!(h1.lock(&mut state, LockKind::Shared));
    assert!(h1.lock(&mut state, LockKind::Reserved));
    assert!(h1.reserved(&state));
    assert!(h2.reserved(&state));
}
