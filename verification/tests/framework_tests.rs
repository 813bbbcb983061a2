use data_buffer::DataBuffer;
use rsis::channel::{RSISInterface, RecvStatus};

#[test]
fn rx_endpoint_granted_exactly_once() {
    let mut intf = RSISInterface::new();
    let first = intf.request_rx(7);
    assert!(first.is_some());
    let second = intf.request_rx(7);
    assert!(second.is_none());
    // a different id is independent
    let other = intf.request_rx(8);
    assert!(other.is_some());
}

#[test]
fn tx_always_granted() {
    let mut intf = RSISInterface::new();
    let _t1 = intf.request_tx(1);
    let _t2 = intf.request_tx(1);
    let rx = intf.request_rx(1);
    assert!(rx.is_some());
}

#[test]
fn messages_flow_fifo() {
    let mut intf = RSISInterface::new();
    let tx = intf.request_tx(4);
    let rx = intf.request_rx(4).unwrap();
    assert!(tx.send(&mut intf, DataBuffer::from_vec(vec![1u8, 2, 3])));
    assert!(tx.send(&mut intf, DataBuffer::from_vec(vec![9u8])));
    let a = rx.recv(&mut intf).unwrap();
    assert_eq!(a.as_bytes(), &[1u8, 2, 3]);
    let b = rx.recv(&mut intf).unwrap();
    assert_eq!(b.as_bytes(), &[9u8]);
    assert!(rx.recv(&mut intf).is_none());
}

#[test]
fn messages_queued_before_rx_taken_survive() {
    let mut intf = RSISInterface::new();
    let tx = intf.request_tx(2);
    assert!(tx.send(&mut intf, DataBuffer::from_vec(vec![42u8])));
    let rx = intf.request_rx(2).unwrap();
    let m = rx.recv(&mut intf).unwrap();
    assert_eq!(m.as_bytes(), &[42u8]);
}

#[test]
fn try_recv_tells_empty_from_disconnected() {
    let mut intf = RSISInterface::new();
    let rx = intf.request_rx(3).unwrap();
    match rx.try_recv(&mut intf) {
        RecvStatus::Empty => {},
        _ => panic!("expected an empty channel"),
    }
    intf.clear();
    match rx.try_recv(&mut intf) {
        RecvStatus::Disconnected => {},
        _ => panic!("expected a disconnected channel"),
    }
    let tx = intf.request_tx(5);
    intf.clear();
    assert!(!tx.send(&mut intf, DataBuffer::from_vec(vec![1u8])));
}

#[test]
fn reserve_region_appends_zeroed_bytes() {
    let mut intf = RSISInterface::new();
    let a = intf.reserve_region(4);
    let b = intf.reserve_region(2);
    assert_eq!(a, 0);
    assert_eq!(b, 4);
    assert_eq!(intf.arena, vec![0u8; 6]);
}

#[test]
fn simtick_starts_at_zero() {
    let intf = RSISInterface::new();
    assert_eq!(intf.get_simtick(), 0);
}
