use system_manager::address::IpAddress;
use system_manager::monitor::{next_step, StreamEvent, WorkerRegistry, WorkerStep};

#[test]
fn later_connection_replaces_worker() {
    let mut r: WorkerRegistry<u32> = WorkerRegistry::new();
    let a = IpAddress::V4(0x7f00_0001);
    let b = IpAddress::V6(0x7f00_0001);
    assert_eq!(r.get(a), None);
    r.insert(a, 1);
    r.insert(b, 2);
    r.insert(a, 3);
    assert_eq!(r.get(a), Some(&3));
    assert_eq!(r.get(b), Some(&2));
    assert_eq!(r.get(IpAddress::V4(1)), None);
}

#[test]
fn worker_stops_on_failure_or_end() {
    assert_eq!(next_step(StreamEvent::Message), WorkerStep::Handle);
    assert_eq!(next_step(StreamEvent::ReadFailed), WorkerStep::Stop);
    assert_eq!(next_step(StreamEvent::Closed), WorkerStep::Stop);
}
