use rte::errors::Error;
use rte::ethdev::{EthConf, EthDeviceInfo, EthDevices, PktDesc};
use rte::flags::ETH_LINK_SPEED_1G;
use rte::mbuf::{pktmbuf_pool_create, MbufPool, SlotKind};
use rte::txbuffer::{alloc_buffer, TxErrorPolicy};

fn test_info() -> EthDeviceInfo {
    EthDeviceInfo {
        max_rx_queues: 4,
        max_tx_queues: 4,
        max_rx_desc: 512,
        max_tx_desc: 512,
        max_vfs: 0,
        max_mtu: 9000,
        rx_offload_capa: 0,
        tx_offload_capa: 0,
        flow_type_rss_offloads: 0,
        speed_capa: ETH_LINK_SPEED_1G,
    }
}

// A started device whose TX queue 0 has ring room for `tx_desc` packets.
fn started_device(tx_desc: u16) -> (EthDevices, u8, MbufPool) {
    let mut devs = EthDevices::new();
    let port = devs.attach("net_model0", test_info(), 0).unwrap();
    let pool = pktmbuf_pool_create("tx_pool", 64, 0, 0, 2048, 0).unwrap();
    devs.configure(port, 1, 1, &EthConf::default()).unwrap();
    devs.rx_queue_setup(port, 0, 64, None, &pool).unwrap();
    devs.tx_queue_setup(port, 0, tx_desc, None).unwrap();
    devs.start(port).unwrap();
    (devs, port, pool)
}

#[test]
fn alloc_buffer_validates_size() {
    assert_eq!(alloc_buffer(0, 0).err(), Some(Error::InvalidArgument));
    assert_eq!(alloc_buffer(70000, 0).err(), Some(Error::InvalidArgument));
    let b = alloc_buffer(32, 0).unwrap();
    assert_eq!(b.size, 32);
    assert_eq!(b.pending.len(), 0);
    assert_eq!(b.policy, TxErrorPolicy::Discard);
}

#[test]
fn policy_selectors_set_the_policy() {
    let mut b = alloc_buffer(8, 0).unwrap();
    assert!(b.count_err_packets().is_ok());
    assert_eq!(b.policy, TxErrorPolicy::Count);
    assert!(b.drop_err_packets().is_ok());
    assert_eq!(b.policy, TxErrorPolicy::Discard);
    assert!(b.set_err_callback(TxErrorPolicy::Custom).is_ok());
    assert_eq!(b.policy, TxErrorPolicy::Custom);
}

#[test]
fn count_policy_counts_exactly_the_unsent() {
    // capacity 32; hardware ring accepts only 16; stage 40 packets
    let (mut devs, port, mut pool) = started_device(16);
    let mut b = alloc_buffer(32, 0).unwrap();
    b.count_err_packets().unwrap();
    let mut handles = Vec::new();
    for _ in 0..40 {
        handles.push(pool.allocate().unwrap());
    }
    let mut flush_results = Vec::new();
    for k in 0..40 {
        let desc = PktDesc { mbuf: handles[k], len: 60 };
        let (sent, returned) = b.append(&mut devs, port, 0, &mut pool, desc);
        assert!(returned.is_empty());
        if sent > 0 {
            flush_results.push((k, sent));
        }
    }
    // the implicit flush was triggered by the 33rd append and the
    // hardware took 16 of the 32 staged packets
    assert_eq!(flush_results, vec![(32, 16)]);
    assert_eq!(b.err_packet_count(), 16);
    // the buffer went on accepting the remaining packets
    assert_eq!(b.pending_count(), 8);
    // the 16 unsent packets went back to their pool
    assert_eq!(pool.free_list.len(), 64 - 40 + 16);
}

#[test]
fn discard_policy_frees_silently() {
    let (mut devs, port, mut pool) = started_device(1);
    let mut b = alloc_buffer(4, 0).unwrap();
    b.drop_err_packets().unwrap();
    for _ in 0..3 {
        let h = pool.allocate().unwrap();
        let (sent, returned) = b.append(&mut devs, port, 0, &mut pool, PktDesc { mbuf: h, len: 60 });
        assert_eq!(sent, 0);
        assert!(returned.is_empty());
    }
    let (sent, returned) = b.flush(&mut devs, port, 0, &mut pool);
    assert_eq!(sent, 1);
    assert!(returned.is_empty());
    assert_eq!(b.err_packet_count(), 0);
    assert_eq!(b.pending_count(), 0);
    // two unsent buffers returned to the pool; one is in flight
    assert_eq!(pool.free_list.len(), 64 - 3 + 2);
}

#[test]
fn custom_policy_hands_unsent_back() {
    let (mut devs, port, mut pool) = started_device(1);
    let mut b = alloc_buffer(4, 0).unwrap();
    b.set_err_callback(TxErrorPolicy::Custom).unwrap();
    let h0 = pool.allocate().unwrap();
    let h1 = pool.allocate().unwrap();
    let d0 = PktDesc { mbuf: h0, len: 60 };
    let d1 = PktDesc { mbuf: h1, len: 61 };
    b.append(&mut devs, port, 0, &mut pool, d0);
    b.append(&mut devs, port, 0, &mut pool, d1);
    let free_before = pool.free_list.len();
    let (sent, returned) = b.flush(&mut devs, port, 0, &mut pool);
    assert_eq!(sent, 1);
    assert_eq!(returned, vec![d1]);
    // ownership of the unsent packet passed back: the pool was not touched
    assert_eq!(pool.free_list.len(), free_before);
    assert_eq!(pool.slots[h1].kind, SlotKind::Head);
    // the caller disposes of it
    pool.free(h1);
}

#[test]
fn free_returns_the_staged_descriptors() {
    let (mut devs, port, mut pool) = started_device(8);
    let mut b = alloc_buffer(4, 0).unwrap();
    let h = pool.allocate().unwrap();
    let d = PktDesc { mbuf: h, len: 42 };
    b.append(&mut devs, port, 0, &mut pool, d);
    let staged = b.free();
    assert_eq!(staged, vec![d]);
    assert_eq!(b.pending_count(), 0);
}

#[test]
fn flush_of_an_empty_buffer_sends_nothing() {
    let (mut devs, port, mut pool) = started_device(8);
    let mut b = alloc_buffer(4, 0).unwrap();
    let (sent, returned) = b.flush(&mut devs, port, 0, &mut pool);
    assert_eq!(sent, 0);
    assert!(returned.is_empty());
}
