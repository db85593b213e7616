//! Bridge membership, unicast delivery, broadcast fan-out and isolation.

use vbridge::BridgeError;
use vbridge::BroadcastRecv;
use vbridge::SubmitOutcome;
use vbridge::VirtualBridge;

const MAC_A: [u8; 6] = [0xaa, 0xaa, 0xaa, 0xaa, 0xaa, 0x01];
const MAC_B: [u8; 6] = [0xaa, 0xaa, 0xaa, 0xaa, 0xaa, 0x02];
const MAC_C: [u8; 6] = [0xaa, 0xaa, 0xaa, 0xaa, 0xaa, 0x03];
const BROADCAST: [u8; 6] = [0xff; 6];

fn mac_key(b: [u8; 6]) -> u64 {
    let mut k: u64 = 0;
    for x in b {
        k = k * 256 + x as u64;
    }
    k
}

/// A minimal non-IPv4 frame from `src` to `dst` with the given payload.
fn frame(dst: [u8; 6], src: [u8; 6], payload: &[u8]) -> Vec<u8> {
    let mut f: Vec<u8> = Vec::new();
    f.extend_from_slice(&dst);
    f.extend_from_slice(&src);
    f.extend_from_slice(&[0x08, 0x06]);
    f.extend_from_slice(payload);
    f
}

#[test]
fn unicast_delivered_in_order() {
    let mut bridge = VirtualBridge::new();
    bridge.join(mac_key(MAC_A)).unwrap();
    bridge.join(mac_key(MAC_B)).unwrap();
    let f1 = frame(MAC_B, MAC_A, b"first");
    let f2 = frame(MAC_B, MAC_A, b"second");
    assert_eq!(bridge.submit(f1.clone()), SubmitOutcome::Delivered);
    assert_eq!(bridge.submit(f2.clone()), SubmitOutcome::Delivered);
    assert_eq!(bridge.recv_egress(mac_key(MAC_B)).unwrap(), Some(f1));
    assert_eq!(bridge.recv_egress(mac_key(MAC_B)).unwrap(), Some(f2));
    assert_eq!(bridge.recv_egress(mac_key(MAC_B)).unwrap(), None);
}

#[test]
fn unknown_destination_dropped_silently() {
    let mut bridge = VirtualBridge::new();
    bridge.join(mac_key(MAC_A)).unwrap();
    let f = frame(MAC_B, MAC_A, b"nobody home");
    assert_eq!(bridge.submit(f), SubmitOutcome::UnknownDestination);
    assert_eq!(bridge.egress_drop_count(), 0);
}

#[test]
fn duplicate_join_fails_and_first_member_keeps_working() {
    let mut bridge = VirtualBridge::new();
    bridge.join(mac_key(MAC_A)).unwrap();
    bridge.join(mac_key(MAC_B)).unwrap();
    assert_eq!(bridge.join(mac_key(MAC_A)), Err(BridgeError::MemberExists));
    let f = frame(MAC_A, MAC_B, b"still routed");
    assert_eq!(bridge.submit(f.clone()), SubmitOutcome::Delivered);
    assert_eq!(bridge.recv_egress(mac_key(MAC_A)).unwrap(), Some(f));
}

#[test]
fn rejoin_after_leave_succeeds() {
    let mut bridge = VirtualBridge::new();
    bridge.join(mac_key(MAC_A)).unwrap();
    bridge.leave(mac_key(MAC_A)).unwrap();
    assert!(!bridge.contains_member(mac_key(MAC_A)));
    assert_eq!(bridge.join(mac_key(MAC_A)), Ok(()));
    assert!(bridge.contains_member(mac_key(MAC_A)));
}

#[test]
fn leave_unknown_member_fails() {
    let mut bridge = VirtualBridge::new();
    assert_eq!(bridge.leave(mac_key(MAC_A)), Err(BridgeError::UnknownMember));
}

#[test]
fn recv_for_unknown_member_fails() {
    let mut bridge = VirtualBridge::new();
    assert_eq!(bridge.recv_egress(mac_key(MAC_A)), Err(BridgeError::UnknownMember));
    match bridge.recv_broadcast(mac_key(MAC_A)) {
        Err(BridgeError::UnknownMember) => {}
        _ => panic!("expected unknown member"),
    }
}

#[test]
fn frames_for_left_member_dropped_as_unknown() {
    let mut bridge = VirtualBridge::new();
    bridge.join(mac_key(MAC_A)).unwrap();
    bridge.join(mac_key(MAC_B)).unwrap();
    bridge.leave(mac_key(MAC_B)).unwrap();
    let f = frame(MAC_B, MAC_A, b"gone");
    assert_eq!(bridge.submit(f), SubmitOutcome::UnknownDestination);
}

#[test]
fn malformed_frame_dropped_and_loop_continues() {
    let mut bridge = VirtualBridge::new();
    bridge.join(mac_key(MAC_A)).unwrap();
    match bridge.submit(vec![0xde, 0xad]) {
        SubmitOutcome::Discarded { .. } => {}
        _ => panic!("expected discard"),
    }
    let f = frame(MAC_A, MAC_B, b"after the bad one");
    assert_eq!(bridge.submit(f.clone()), SubmitOutcome::Delivered);
    assert_eq!(bridge.recv_egress(mac_key(MAC_A)).unwrap(), Some(f));
}

#[test]
fn broadcast_reaches_every_subscriber_once() {
    let mut bridge = VirtualBridge::new();
    bridge.join(mac_key(MAC_A)).unwrap();
    bridge.join(mac_key(MAC_B)).unwrap();
    let f = frame(BROADCAST, MAC_A, b"to everyone");
    assert_eq!(bridge.submit(f.clone()), SubmitOutcome::Broadcasted);
    for mac in [MAC_A, MAC_B] {
        match bridge.recv_broadcast(mac_key(mac)).unwrap() {
            BroadcastRecv::Frame { frame: got } => assert_eq!(got, f),
            _ => panic!("subscriber missed the broadcast"),
        }
        match bridge.recv_broadcast(mac_key(mac)).unwrap() {
            BroadcastRecv::Empty => {}
            _ => panic!("broadcast delivered twice"),
        }
    }
}

#[test]
fn late_joiner_does_not_see_old_broadcasts() {
    let mut bridge = VirtualBridge::new();
    bridge.join(mac_key(MAC_A)).unwrap();
    let f = frame(BROADCAST, MAC_A, b"early");
    assert_eq!(bridge.submit(f), SubmitOutcome::Broadcasted);
    bridge.join(mac_key(MAC_B)).unwrap();
    match bridge.recv_broadcast(mac_key(MAC_B)).unwrap() {
        BroadcastRecv::Empty => {}
        _ => panic!("late joiner saw an old broadcast"),
    }
}

#[test]
fn lagging_subscriber_loses_oldest_frames() {
    let mut bridge = VirtualBridge::new();
    bridge.join(mac_key(MAC_A)).unwrap();
    for i in 0..55u8 {
        let f = frame(BROADCAST, MAC_A, &[i]);
        assert_eq!(bridge.submit(f), SubmitOutcome::Broadcasted);
    }
    match bridge.recv_broadcast(mac_key(MAC_A)).unwrap() {
        BroadcastRecv::Lagged { missed } => assert_eq!(missed, 5),
        _ => panic!("expected a lag report"),
    }
    match bridge.recv_broadcast(mac_key(MAC_A)).unwrap() {
        BroadcastRecv::Frame { frame: got } => assert_eq!(got, frame(BROADCAST, MAC_A, &[5])),
        _ => panic!("expected the oldest retained frame"),
    }
}

#[test]
fn flooded_member_does_not_block_others_or_stop_the_bridge() {
    let mut bridge = VirtualBridge::new();
    bridge.join(mac_key(MAC_A)).unwrap();
    bridge.join(mac_key(MAC_B)).unwrap();
    bridge.join(mac_key(MAC_C)).unwrap();
    for i in 0..50u8 {
        assert_eq!(bridge.submit(frame(MAC_B, MAC_A, &[i])), SubmitOutcome::Delivered);
    }
    assert_eq!(bridge.submit(frame(MAC_B, MAC_A, b"overflow")), SubmitOutcome::EgressFull);
    assert_eq!(bridge.submit(frame(MAC_B, MAC_A, b"overflow")), SubmitOutcome::EgressFull);
    assert_eq!(bridge.egress_drop_count(), 2);
    let f = frame(MAC_C, MAC_A, b"unaffected");
    assert_eq!(bridge.submit(f.clone()), SubmitOutcome::Delivered);
    assert_eq!(bridge.recv_egress(mac_key(MAC_C)).unwrap(), Some(f));
    assert_eq!(bridge.recv_egress(mac_key(MAC_B)).unwrap(), Some(frame(MAC_B, MAC_A, &[0])));
}

#[test]
fn join_send_unicast_then_broadcast_scenario() {
    let mut bridge = VirtualBridge::new();
    bridge.join(mac_key(MAC_A)).unwrap();
    bridge.join(mac_key(MAC_B)).unwrap();
    let unicast = frame(MAC_B, MAC_A, b"X");
    assert_eq!(bridge.submit(unicast.clone()), SubmitOutcome::Delivered);
    assert_eq!(bridge.recv_egress(mac_key(MAC_B)).unwrap(), Some(unicast));
    assert_eq!(bridge.recv_egress(mac_key(MAC_B)).unwrap(), None);
    let bcast = frame(BROADCAST, MAC_A, b"Y");
    assert_eq!(bridge.submit(bcast.clone()), SubmitOutcome::Broadcasted);
    for mac in [MAC_A, MAC_B] {
        match bridge.recv_broadcast(mac_key(mac)).unwrap() {
            BroadcastRecv::Frame { frame: got } => assert_eq!(got, bcast),
            _ => panic!("subscription missed the broadcast"),
        }
    }
}
