use rsis::bufferlog::bufferlog_app;
use rsis::bufferread::bufferread_app;
use rsis::channel::RSISInterface;
use rsis::connection::Connection;
use rsis::modellib::{BufferStruct, RuntimeStatus, MSG_UNKNOWN};
use rsis::probe::ProbeModel;

#[test]
fn connection_copies_bytes() {
    let mut intf = RSISInterface::new();
    intf.reserve_region(8);
    intf.arena[0] = 0xde;
    intf.arena[1] = 0xad;
    intf.arena[2] = 0xbe;
    intf.arena[3] = 0xef;
    let mut c = Connection { src: 0, dst: 4, size: 4 };
    let st = c.step(&mut intf);
    assert_eq!(st, RuntimeStatus::OK);
    assert_eq!(&intf.arena[4..8], &[0xde, 0xad, 0xbe, 0xef]);
    // the source is untouched
    assert_eq!(&intf.arena[0..4], &[0xde, 0xad, 0xbe, 0xef]);
}

#[test]
fn connection_rejects_out_of_range_regions() {
    let mut intf = RSISInterface::new();
    intf.reserve_region(4);
    let mut c = Connection { src: 2, dst: 0, size: 4 };
    let st = c.step(&mut intf);
    assert_eq!(st, RuntimeStatus::ERROR);
    assert_eq!(intf.arena, vec![0u8; 4]);
}

#[test]
fn connection_knows_no_fields() {
    let mut c = Connection { src: 0, dst: 0, size: 1 };
    let id = BufferStruct::new("anything".as_bytes().to_vec());
    assert_eq!(c.msg_get(&id).unwrap_err(), MSG_UNKNOWN);
    let data = BufferStruct::new(vec![0u8]);
    assert_eq!(c.msg_set(&id, &data), MSG_UNKNOWN);
    assert!(c.get_ptr(&id).is_none());
}

#[test]
fn bufferlog_logs_one_byte_slot_per_step() {
    let mut intf = RSISInterface::new();
    let src = intf.reserve_region(1);
    let dst = intf.reserve_region(4);
    let mut log = bufferlog_app::new();
    log.add_port(src, dst, 1);
    assert_eq!(log.init(&mut intf), RuntimeStatus::OK);
    intf.arena[src] = 11;
    assert_eq!(log.step(&mut intf), RuntimeStatus::OK);
    intf.arena[src] = 22;
    assert_eq!(log.step(&mut intf), RuntimeStatus::OK);
    assert_eq!(&intf.arena[dst..dst + 2], &[11, 22]);
}

#[test]
fn bufferlog_reports_index() {
    let mut intf = RSISInterface::new();
    let mut log = bufferlog_app::new();
    assert_eq!(log.init(&mut intf), RuntimeStatus::OK);
    log.step(&mut intf);
    log.step(&mut intf);
    log.step(&mut intf);
    let id = BufferStruct::new("index".as_bytes().to_vec());
    let got = log.msg_get(&id).unwrap();
    assert_eq!(got.bytes, 3u64.to_le_bytes().to_vec());
    let bad = BufferStruct::new("nope".as_bytes().to_vec());
    assert_eq!(log.msg_get(&bad).unwrap_err(), MSG_UNKNOWN);
}

#[test]
fn bufferread_replays_records_and_finishes() {
    let mut intf = RSISInterface::new();
    let src = intf.reserve_region(3);
    let dst = intf.reserve_region(1);
    intf.arena[src] = 5;
    intf.arena[src + 1] = 6;
    intf.arena[src + 2] = 7;
    let mut rd = bufferread_app::new();
    rd.add_port(src, dst, 1);
    rd.set_ndata(3);
    assert_eq!(rd.init(&mut intf), RuntimeStatus::OK);
    assert_eq!(rd.step(&mut intf), RuntimeStatus::OK);
    assert_eq!(intf.arena[dst], 5);
    assert_eq!(rd.step(&mut intf), RuntimeStatus::OK);
    assert_eq!(intf.arena[dst], 6);
    assert_eq!(rd.step(&mut intf), RuntimeStatus::FINISHED);
    assert_eq!(intf.arena[dst], 7);
}

#[test]
fn probe_records_ticks_and_counts() {
    let mut intf = RSISInterface::new();
    let mut p = ProbeModel::new();
    assert_eq!(p.init(&mut intf), RuntimeStatus::OK);
    intf.time.increment(1);
    p.step(&mut intf);
    intf.time.increment(1);
    p.step(&mut intf);
    assert_eq!(p.ticks, vec![1, 2]);
    let id = BufferStruct::new("count".as_bytes().to_vec());
    let got = p.msg_get(&id).unwrap();
    assert_eq!(got.bytes, 2u64.to_le_bytes().to_vec());
}

#[test]
fn probe_writes_its_pattern() {
    let mut intf = RSISInterface::new();
    let out = intf.reserve_region(4);
    let mut p = ProbeModel::new();
    p.set_write(out, 7u32.to_le_bytes().to_vec());
    assert_eq!(p.step(&mut intf), RuntimeStatus::OK);
    assert_eq!(&intf.arena[out..out + 4], &7u32.to_le_bytes());
    let id = BufferStruct::new("out".as_bytes().to_vec());
    assert_eq!(p.get_ptr(&id), Some(out));
}

#[test]
fn probe_write_out_of_range_errors() {
    let mut intf = RSISInterface::new();
    intf.reserve_region(2);
    let mut p = ProbeModel::new();
    p.set_write(1, vec![1u8, 2, 3]);
    assert_eq!(p.step(&mut intf), RuntimeStatus::ERROR);
    assert!(p.ticks.is_empty());
    assert_eq!(intf.arena, vec![0u8, 0u8]);
}

#[test]
fn failing_probe_reports_init_error() {
    let mut intf = RSISInterface::new();
    let mut p = ProbeModel::new();
    p.fail_init();
    assert_eq!(p.init(&mut intf), RuntimeStatus::ERROR);
}
