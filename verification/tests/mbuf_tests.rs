use rte::errors::Error;
use rte::mbuf::{pktmbuf_pool_create, MbufPool, RefCnt, RTE_PKTMBUF_HEADROOM};

fn pool_of(n: u32, data_room: u16) -> MbufPool {
    pktmbuf_pool_create("test_pool", n, 0, 0, data_room, 0).unwrap()
}

#[test]
fn pool_create_rejects_empty_name() {
    assert_eq!(
        pktmbuf_pool_create("", 4, 0, 0, 2048, 0).err(),
        Some(Error::InvalidArgument)
    );
}

#[test]
fn pool_create_rejects_zero_buffers() {
    assert_eq!(
        pktmbuf_pool_create("p", 0, 0, 0, 2048, 0).err(),
        Some(Error::InvalidArgument)
    );
}

#[test]
fn pool_create_rejects_tiny_data_room() {
    assert_eq!(
        pktmbuf_pool_create("p", 4, 0, 0, RTE_PKTMBUF_HEADROOM - 1, 0).err(),
        Some(Error::InvalidArgument)
    );
}

#[test]
fn pool_create_initializes_free_slots() {
    let p = pool_of(8, 2048);
    assert_eq!(p.slots.len(), 8);
    assert_eq!(p.free_list.len(), 8);
    assert_eq!(p.headroom, 128);
    assert_eq!(p.data_room, 2048);
}

#[test]
fn allocate_gives_fresh_buffer() {
    let mut p = pool_of(2, 2048);
    let h = p.allocate().unwrap();
    assert_eq!(p.slots[h].data_off, 128);
    assert_eq!(p.slots[h].data_len, 0);
    assert_eq!(p.slots[h].refcnt, 1);
    assert_eq!(p.slots[h].nb_segs, 1);
    assert_eq!(p.free_list.len(), 1);
}

#[test]
fn allocate_exhausts_to_none() {
    let mut p = pool_of(2, 2048);
    assert!(p.allocate().is_some());
    assert!(p.allocate().is_some());
    assert!(p.allocate().is_none());
}

#[test]
fn alloc_bulk_returns_fewer_on_exhaustion() {
    let mut p = pool_of(4, 2048);
    let got = p.alloc_bulk(10);
    assert_eq!(got.len(), 4);
    for i in 0..got.len() {
        for j in 0..i {
            assert_ne!(got[i], got[j]);
        }
    }
    assert_eq!(p.alloc_bulk(3).len(), 0);
}

#[test]
fn append_then_overflow_then_consume() {
    // a 2048-byte pool entry with the default 128-byte headroom
    let mut p = pool_of(1, 2048);
    let h = p.allocate().unwrap();
    assert_eq!(p.append(h, 1900), Ok(128));
    assert_eq!(p.append(h, 100), Err(Error::InsufficientTailroom));
    // the failed call must not have mutated the buffer
    assert_eq!(p.slots[h].data_len, 1900);
    // consuming 500 bytes moves the readable window forward by 500
    assert_eq!(p.consume(h, 500), Ok(628));
    assert_eq!(p.slots[h].data_off, 628);
    assert_eq!(p.slots[h].data_len, 1400);
}

#[test]
fn prepend_respects_headroom() {
    let mut p = pool_of(1, 2048);
    let h = p.allocate().unwrap();
    assert_eq!(p.prepend(h, 64), Ok(64));
    assert_eq!(p.prepend(h, 65), Err(Error::InsufficientHeadroom));
    assert_eq!(p.slots[h].data_off, 64);
    assert_eq!(p.slots[h].data_len, 64);
    assert_eq!(p.prepend(h, 64), Ok(0));
    assert_eq!(p.slots[h].data_off, 0);
}

#[test]
fn consume_rejects_more_than_length() {
    let mut p = pool_of(1, 2048);
    let h = p.allocate().unwrap();
    assert_eq!(p.append(h, 10), Ok(128));
    assert_eq!(p.consume(h, 11), Err(Error::InvalidArgument));
    assert_eq!(p.consume(h, 10), Ok(138));
}

#[test]
fn trim_shrinks_from_the_back() {
    let mut p = pool_of(1, 2048);
    let h = p.allocate().unwrap();
    assert_eq!(p.append(h, 100), Ok(128));
    assert_eq!(p.trim(h, 40), Ok(()));
    assert_eq!(p.slots[h].data_len, 60);
    assert_eq!(p.trim(h, 61), Err(Error::InvalidArgument));
    assert_eq!(p.slots[h].data_len, 60);
}

#[test]
fn window_invariant_holds_after_every_call() {
    let mut p = pool_of(1, 2048);
    let h = p.allocate().unwrap();
    let _ = p.prepend(h, 100);
    let _ = p.append(h, 2000);
    let _ = p.consume(h, 3000);
    let _ = p.trim(h, 5000);
    let _ = p.append(h, 1900);
    let s = p.slots[h];
    assert!(s.data_off as u32 + s.data_len as u32 <= s.buf_len as u32);
}

#[test]
fn clone_shares_and_free_decrements() {
    let mut p = pool_of(1, 2048);
    let h = p.allocate().unwrap();
    let h2 = p.clone(h);
    assert_eq!(h2, h);
    assert_eq!(p.refcnt_read(h), 2);
    p.free(h);
    assert_eq!(p.refcnt_read(h), 1);
    assert_eq!(p.free_list.len(), 0);
    p.free(h);
    // the last free returned the buffer to the pool exactly once
    assert_eq!(p.free_list.len(), 1);
}

#[test]
fn refcnt_primitives() {
    let mut p = pool_of(1, 2048);
    let h = p.allocate().unwrap();
    assert_eq!(p.refcnt_update(h, 3), 4);
    assert_eq!(p.refcnt_update(h, -2), 2);
    p.refcnt_set(h, 7);
    assert_eq!(p.refcnt_read(h), 7);
}

#[test]
fn chain_links_two_packets() {
    let mut p = pool_of(2, 2048);
    let h1 = p.allocate().unwrap();
    let h2 = p.allocate().unwrap();
    assert_eq!(p.append(h1, 10), Ok(128));
    assert_eq!(p.append(h2, 25), Ok(128));
    assert!(p.is_contiguous(h1));
    assert_eq!(p.chain(h1, h2), Ok(()));
    assert!(!p.is_contiguous(h1));
    assert_eq!(p.slots[h1].nb_segs, 2);
    // append and trim act on the last segment
    assert_eq!(p.append(h1, 5), Ok(153));
    assert_eq!(p.slots[h2].data_len, 30);
    assert_eq!(p.trim(h1, 30), Ok(()));
    assert_eq!(p.slots[h2].data_len, 0);
    // prepend and consume act on the first segment
    assert_eq!(p.consume(h1, 4), Ok(132));
    assert_eq!(p.slots[h1].data_len, 6);
}

#[test]
fn free_returns_whole_chain() {
    let mut p = pool_of(2, 2048);
    let h1 = p.allocate().unwrap();
    let h2 = p.allocate().unwrap();
    p.chain(h1, h2).unwrap();
    assert_eq!(p.free_list.len(), 0);
    p.free(h1);
    assert_eq!(p.free_list.len(), 2);
    assert!(p.allocate().is_some());
    assert!(p.allocate().is_some());
}
