use rte::errors::Error;
use rte::ethdev::{
    EthConf, EthDeviceInfo, EthDevices, EthLink, EthRxMode, EthRxQueueConf, PktDesc,
};
use rte::flags::{
    EthVlanOffloadMode, EthVmdqRxMode, DEV_RX_OFFLOAD_IPV4_CKSUM, DEV_RX_OFFLOAD_TCP_CKSUM,
    DEV_RX_OFFLOAD_UDP_CKSUM, DEV_RX_OFFLOAD_VLAN_FILTER, ETH_LINK_SPEED_10G, ETH_LINK_SPEED_1G,
};
use rte::mbuf::{pktmbuf_pool_create, MbufPool};

fn test_info() -> EthDeviceInfo {
    EthDeviceInfo {
        max_rx_queues: 4,
        max_tx_queues: 4,
        max_rx_desc: 512,
        max_tx_desc: 512,
        max_vfs: 2,
        max_mtu: 9000,
        rx_offload_capa: DEV_RX_OFFLOAD_IPV4_CKSUM | DEV_RX_OFFLOAD_UDP_CKSUM
            | DEV_RX_OFFLOAD_TCP_CKSUM | DEV_RX_OFFLOAD_VLAN_FILTER,
        tx_offload_capa: 0,
        flow_type_rss_offloads: 0,
        speed_capa: ETH_LINK_SPEED_1G | ETH_LINK_SPEED_10G,
    }
}

fn attached() -> (EthDevices, u8) {
    let mut devs = EthDevices::new();
    let port = devs.attach("net_model0", test_info(), 0).unwrap();
    (devs, port)
}

fn pool_of(n: u32) -> MbufPool {
    pktmbuf_pool_create("rx_pool", n, 0, 0, 2048, 0).unwrap()
}

#[test]
fn attach_rejects_empty_descriptor() {
    let mut devs = EthDevices::new();
    assert_eq!(
        devs.attach("", test_info(), 0).err(),
        Some(Error::InvalidArgument)
    );
    assert_eq!(devs.count(), 0);
}

#[test]
fn attach_hands_out_sequential_ports() {
    let mut devs = EthDevices::new();
    assert_eq!(devs.attach("a", test_info(), 0), Ok(0));
    assert_eq!(devs.attach("b", test_info(), 1), Ok(1));
    assert_eq!(devs.count(), 2);
    let range = devs.devices();
    assert_eq!(range.start, 0);
    assert_eq!(range.end, 2);
    assert!(devs.is_valid(1));
    assert!(!devs.is_valid(2));
    assert_eq!(devs.socket_id(1), 1);
}

#[test]
fn attach_runs_out_of_port_handles() {
    let mut devs = EthDevices::new();
    for i in 0..32 {
        assert_eq!(devs.attach("net_model", test_info(), 0), Ok(i));
    }
    assert_eq!(
        devs.attach("net_model", test_info(), 0).err(),
        Some(Error::OutOfResources)
    );
}

#[test]
fn idle_queue_yields_empty_burst_and_no_allocation() {
    // one RX and one TX queue backed by a pool of 64 buffers and
    // 128 descriptors; a burst of 32 on the idle queue is empty and
    // consumes nothing from the pool
    let (mut devs, port) = attached();
    let pool = pool_of(64);
    assert_eq!(devs.configure(port, 1, 1, &EthConf::default()), Ok(()));
    assert_eq!(devs.rx_queue_setup(port, 0, 128, None, &pool), Ok(()));
    assert_eq!(devs.tx_queue_setup(port, 0, 128, None), Ok(()));
    assert_eq!(devs.start(port), Ok(()));
    let pkts = devs.rx_burst(port, 0, 32);
    assert_eq!(pkts.len(), 0);
    assert_eq!(pool.free_list.len(), 64);
}

#[test]
fn close_needs_stop_and_allows_reconfigure() {
    let (mut devs, port) = attached();
    let pool = pool_of(8);
    devs.configure(port, 1, 1, &EthConf::default()).unwrap();
    devs.rx_queue_setup(port, 0, 64, None, &pool).unwrap();
    devs.tx_queue_setup(port, 0, 64, None).unwrap();
    devs.start(port).unwrap();
    assert_eq!(devs.close(port), Err(Error::InvalidState));
    assert!(devs.stop(port).is_ok());
    assert_eq!(devs.close(port), Ok(()));
    assert_eq!(devs.configure(port, 2, 1, &EthConf::default()), Ok(()));
}

#[test]
fn operations_fail_with_invalid_state_when_illegal() {
    let (mut devs, port) = attached();
    // nothing is legal on an unconfigured device but configure
    assert_eq!(devs.start(port), Err(Error::InvalidState));
    assert_eq!(devs.stop(port).err(), Some(Error::InvalidState));
    assert_eq!(devs.close(port), Err(Error::InvalidState));
    assert_eq!(devs.set_mtu(port, 1600), Err(Error::InvalidState));
    assert_eq!(devs.promiscuous_enable(port), Err(Error::InvalidState));
    let pool = pool_of(8);
    assert_eq!(
        devs.rx_queue_setup(port, 0, 64, None, &pool),
        Err(Error::InvalidState)
    );
    devs.configure(port, 1, 1, &EthConf::default()).unwrap();
    // configure is illegal once started
    devs.rx_queue_setup(port, 0, 64, None, &pool).unwrap();
    devs.tx_queue_setup(port, 0, 64, None).unwrap();
    devs.start(port).unwrap();
    assert_eq!(
        devs.configure(port, 1, 1, &EthConf::default()),
        Err(Error::InvalidState)
    );
    // per-queue controls are legal only while started
    assert_eq!(devs.rx_queue_start(port, 0), Ok(()));
    devs.stop(port).unwrap();
    assert_eq!(devs.rx_queue_start(port, 0), Err(Error::InvalidState));
}

#[test]
fn configure_validates_counts_and_features() {
    let (mut devs, port) = attached();
    assert_eq!(
        devs.configure(port, 5, 1, &EthConf::default()),
        Err(Error::InvalidArgument)
    );
    assert_eq!(
        devs.configure(99, 1, 1, &EthConf::default()),
        Err(Error::InvalidArgument)
    );
    // LRO is not in the capability set of this hardware
    let mut rxmode = EthRxMode::default();
    rxmode.enable_lro = true;
    let conf = EthConf {
        rxmode: Some(rxmode),
        ..EthConf::default()
    };
    assert_eq!(devs.configure(port, 1, 1, &conf), Err(Error::Unsupported));
    // checksum offload is supported
    let mut rxmode2 = EthRxMode::default();
    rxmode2.hw_ip_checksum = true;
    let conf2 = EthConf {
        rxmode: Some(rxmode2),
        ..EthConf::default()
    };
    assert_eq!(devs.configure(port, 1, 1, &conf2), Ok(()));
}

#[test]
fn queue_setup_validates_ids_and_descriptors() {
    let (mut devs, port) = attached();
    let pool = pool_of(8);
    devs.configure(port, 2, 1, &EthConf::default()).unwrap();
    assert_eq!(
        devs.rx_queue_setup(port, 2, 64, None, &pool),
        Err(Error::InvalidArgument)
    );
    assert_eq!(
        devs.rx_queue_setup(port, 0, 0, None, &pool),
        Err(Error::InvalidArgument)
    );
    assert_eq!(
        devs.rx_queue_setup(port, 0, 513, None, &pool),
        Err(Error::OutOfResources)
    );
    assert_eq!(devs.tx_queue_setup(port, 0, 513, None), Err(Error::OutOfResources));
    assert_eq!(devs.rx_queue_setup(port, 0, 64, None, &pool), Ok(()));
}

#[test]
fn start_needs_every_queue_set_up() {
    let (mut devs, port) = attached();
    let pool = pool_of(8);
    devs.configure(port, 2, 1, &EthConf::default()).unwrap();
    devs.rx_queue_setup(port, 0, 64, None, &pool).unwrap();
    devs.tx_queue_setup(port, 0, 64, None).unwrap();
    // RX queue 1 was declared but never set up
    assert_eq!(devs.start(port), Err(Error::DeviceError(-1)));
    devs.rx_queue_setup(port, 1, 64, None, &pool).unwrap();
    assert_eq!(devs.start(port), Ok(()));
}

#[test]
fn link_decodes_packed_status_word() {
    let word: u64 = 10000 | (1u64 << 32) | (1u64 << 34);
    let link = EthLink::from_raw(word);
    assert_eq!(link.speed, 10000);
    assert!(link.duplex);
    assert!(!link.autoneg);
    assert!(link.up);
    let down = EthLink::from_raw(0);
    assert!(!down.up);
    assert_eq!(down.speed, 0);
}

#[test]
fn link_up_negotiates_fastest_supported_speed() {
    let (mut devs, port) = attached();
    devs.configure(port, 1, 1, &EthConf::default()).unwrap();
    assert_eq!(devs.set_link_up(port), Ok(()));
    let link = devs.link(port);
    assert_eq!(link.speed, 10000);
    assert!(link.up);
    assert!(link.autoneg);
    assert!(devs.is_up(port));
    assert_eq!(devs.link_nowait(port).speed, 10000);
    assert_eq!(devs.set_link_down(port), Ok(()));
    assert!(!devs.is_up(port));
}

#[test]
fn mtu_and_mac_controls() {
    let (mut devs, port) = attached();
    devs.configure(port, 1, 1, &EthConf::default()).unwrap();
    assert_eq!(devs.mtu(port), Ok(1500));
    assert_eq!(devs.set_mtu(port, 9000), Ok(()));
    assert_eq!(devs.mtu(port), Ok(9000));
    assert_eq!(devs.set_mtu(port, 50), Err(Error::InvalidArgument));
    assert_eq!(devs.set_mtu(port, 9001), Err(Error::InvalidArgument));
    let mac = [0x02, 0x11, 0x22, 0x33, 0x44, 0x55];
    assert_eq!(devs.set_mac_addr(port, &mac), Ok(()));
    assert_eq!(devs.mac_addr(port), mac);
    // a group address is refused
    assert_eq!(
        devs.set_mac_addr(port, &[0x01, 0, 0, 0, 0, 1]),
        Err(Error::InvalidArgument)
    );
    // the all-zero address is refused
    assert_eq!(
        devs.set_mac_addr(port, &[0, 0, 0, 0, 0, 0]),
        Err(Error::InvalidArgument)
    );
}

#[test]
fn promiscuous_toggles() {
    let (mut devs, port) = attached();
    devs.configure(port, 1, 1, &EthConf::default()).unwrap();
    assert_eq!(devs.is_promiscuous_enabled(port), Ok(false));
    assert_eq!(devs.promiscuous_enable(port), Ok(()));
    assert_eq!(devs.is_promiscuous_enabled(port), Ok(true));
    assert_eq!(devs.promiscuous_disable(port), Ok(()));
    assert_eq!(devs.is_promiscuous_enabled(port), Ok(false));
}

#[test]
fn vlan_filter_needs_the_feature_and_valid_ids() {
    let mut devs = EthDevices::new();
    let plain = devs.attach("net_model0", test_info(), 0).unwrap();
    let filtered = devs.attach("net_model1", test_info(), 0).unwrap();
    devs.configure(plain, 1, 1, &EthConf::default()).unwrap();
    assert_eq!(devs.set_vlan_filter(plain, 100, true), Err(Error::Unsupported));
    let mut rxmode = EthRxMode::default();
    rxmode.hw_vlan_filter = true;
    let conf = EthConf {
        rxmode: Some(rxmode),
        ..EthConf::default()
    };
    devs.configure(filtered, 1, 1, &conf).unwrap();
    assert_eq!(devs.set_vlan_filter(filtered, 5000, true), Err(Error::InvalidArgument));
    assert_eq!(devs.set_vlan_filter(filtered, 100, true), Ok(()));
    assert_eq!(devs.set_vlan_filter(filtered, 100, true), Ok(()));
    assert_eq!(devs.devs[filtered as usize].vlan_filter.len(), 1);
    assert_eq!(devs.set_vlan_filter(filtered, 100, false), Ok(()));
    assert_eq!(devs.devs[filtered as usize].vlan_filter.len(), 0);
}

#[test]
fn vlan_offload_applies_only_mode_bits() {
    let (mut devs, port) = attached();
    devs.configure(port, 1, 1, &EthConf::default()).unwrap();
    assert_eq!(
        devs.set_vlan_offload(port, EthVlanOffloadMode { bits: 0x3 }),
        Ok(())
    );
    assert_eq!(devs.vlan_offload(port), Ok(EthVlanOffloadMode { bits: 0x3 }));
    assert_eq!(
        devs.set_vlan_offload(port, EthVlanOffloadMode { bits: 0xFF }),
        Ok(())
    );
    assert_eq!(devs.vlan_offload(port), Ok(EthVlanOffloadMode { bits: 0x7 }));
}

#[test]
fn vf_controls_validate_the_function_index() {
    let (mut devs, port) = attached();
    devs.configure(port, 1, 1, &EthConf::default()).unwrap();
    assert_eq!(devs.set_vf_rx(port, 0, true), Ok(()));
    assert_eq!(devs.set_vf_tx(port, 1, true), Ok(()));
    assert_eq!(devs.set_vf_rx(port, 2, true), Err(Error::InvalidArgument));
    let mode = EthVmdqRxMode { bits: 0x5 };
    assert_eq!(devs.set_vf_rxmode(port, 0, mode, true), Ok(()));
    assert_eq!(devs.devs[port as usize].vf_rxmode[0], 0x5);
    assert_eq!(devs.set_vf_rxmode(port, 0, EthVmdqRxMode { bits: 0x1 }, false), Ok(()));
    assert_eq!(devs.devs[port as usize].vf_rxmode[0], 0x4);
}

#[test]
fn tx_burst_accepts_up_to_ring_space() {
    let (mut devs, port) = attached();
    let pool = pool_of(8);
    devs.configure(port, 1, 1, &EthConf::default()).unwrap();
    devs.rx_queue_setup(port, 0, 64, None, &pool).unwrap();
    devs.tx_queue_setup(port, 0, 2, None).unwrap();
    devs.start(port).unwrap();
    let pkts = vec![
        PktDesc { mbuf: 0, len: 60 },
        PktDesc { mbuf: 1, len: 60 },
        PktDesc { mbuf: 2, len: 60 },
    ];
    // the ring holds 2 descriptors: the count never exceeds the input
    let sent = devs.tx_burst(port, 0, &pkts);
    assert_eq!(sent, 2);
    assert_eq!(devs.tx_burst(port, 0, &pkts), 0);
    // stopping hands the two in-flight descriptors back
    let drained = devs.stop(port).unwrap();
    assert_eq!(drained.len(), 2);
    assert_eq!(drained[0], pkts[0]);
    assert_eq!(drained[1], pkts[1]);
}

#[test]
fn loopback_echoes_transmitted_packets() {
    let (mut devs, port) = attached();
    let pool = pool_of(8);
    let conf = EthConf {
        lpbk_mode: 1,
        ..EthConf::default()
    };
    devs.configure(port, 1, 1, &conf).unwrap();
    devs.rx_queue_setup(port, 0, 64, None, &pool).unwrap();
    devs.tx_queue_setup(port, 0, 64, None).unwrap();
    devs.start(port).unwrap();
    let pkts = vec![
        PktDesc { mbuf: 3, len: 100 },
        PktDesc { mbuf: 4, len: 200 },
    ];
    assert_eq!(devs.tx_burst(port, 0, &pkts), 2);
    let got = devs.rx_burst(port, 0, 32);
    assert_eq!(got.len(), 2);
    assert_eq!(got[0], pkts[0]);
    assert_eq!(got[1], pkts[1]);
    // the burst never returns more than asked for
    assert_eq!(devs.tx_burst(port, 0, &pkts), 2);
    let one = devs.rx_burst(port, 0, 1);
    assert_eq!(one.len(), 1);
    let stats = devs.stats(port).unwrap();
    assert_eq!(stats.opackets, 4);
    assert_eq!(stats.obytes, 600);
    assert_eq!(stats.ipackets, 3);
    assert_eq!(stats.ibytes, 400);
    assert_eq!(stats.q_opackets[0], 4);
    assert_eq!(stats.q_ipackets[0], 3);
    assert!(devs.reset_stats(port).is_ok());
    let zeroed = devs.stats(port).unwrap();
    assert_eq!(zeroed.opackets, 0);
    assert_eq!(zeroed.ibytes, 0);
}

#[test]
fn rx_burst_ex_and_tx_burst_ex_bound_their_counts() {
    let (mut devs, port) = attached();
    let pool = pool_of(8);
    let conf = EthConf {
        lpbk_mode: 1,
        ..EthConf::default()
    };
    devs.configure(port, 1, 1, &conf).unwrap();
    devs.rx_queue_setup(port, 0, 64, None, &pool).unwrap();
    devs.tx_queue_setup(port, 0, 64, None).unwrap();
    devs.start(port).unwrap();
    let pkts = vec![
        PktDesc { mbuf: 0, len: 10 },
        PktDesc { mbuf: 1, len: 20 },
        PktDesc { mbuf: 2, len: 30 },
    ];
    // only the first two are offered
    assert_eq!(devs.tx_burst_ex(port, 0, &pkts, 2), 2);
    let got = devs.rx_burst_ex(port, 0, 8);
    assert_eq!(got.len(), 2);
    assert_eq!(got[1], pkts[1]);
}

#[test]
fn deferred_queue_stays_stopped_until_started() {
    let (mut devs, port) = attached();
    let pool = pool_of(8);
    devs.configure(port, 1, 1, &EthConf::default()).unwrap();
    let qconf = EthRxQueueConf {
        rx_deferred_start: true,
        ..EthRxQueueConf::default()
    };
    devs.rx_queue_setup(port, 0, 64, Some(qconf), &pool).unwrap();
    devs.tx_queue_setup(port, 0, 64, None).unwrap();
    devs.start(port).unwrap();
    match &devs.devs[port as usize].rx_queues[0] {
        Some(q) => assert!(!q.started),
        None => panic!("queue lost"),
    }
    assert_eq!(devs.rx_queue_start(port, 0), Ok(()));
    match &devs.devs[port as usize].rx_queues[0] {
        Some(q) => assert!(q.started),
        None => panic!("queue lost"),
    }
    assert_eq!(devs.tx_queue_stop(port, 0), Ok(()));
    assert_eq!(devs.rx_queue_start(port, 9), Err(Error::InvalidArgument));
}
