use sniffy::packet::PacketType;
use sniffy::session::{filter_is_noop, CaptureLoop, LoopState, Pacing, PollOutcome, SessionSlot};

fn tcp_frame() -> Vec<u8> {
    let mut payload = vec![0u8; 20];
    payload[0] = 0x45;
    payload[9] = 6;
    payload.extend_from_slice(&[0u8; 20]); // a blank TCP header decodes fine
    let mut frame = vec![0u8; 12];
    frame.extend_from_slice(&[0x08, 0x00]);
    frame.extend_from_slice(&payload);
    frame
}

#[test]
fn device_swap_mid_cycle_loses_no_frame() {
    // One frame before the swap, one after: the swap bumps only the
    // handle generation, and each frame is counted exactly once.
    let mut cl = CaptureLoop::new();
    let mut slot = SessionSlot::new();

    let first = cl.iterate(&slot, false, PollOutcome::Frame(tcp_frame()));
    assert_eq!(first.observed_generation, 0);
    assert!(first.decoded.is_some());
    assert_eq!(cl.counters.count(&PacketType::TCP), 1);

    slot.replace(); // the controller installs a new handle under the lock
    assert_eq!(cl.counters.count(&PacketType::TCP), 1);

    let second = cl.iterate(&slot, false, PollOutcome::Frame(tcp_frame()));
    assert_eq!(second.observed_generation, 1);
    assert!(second.decoded.is_some());
    assert_eq!(cl.counters.count(&PacketType::TCP), 2);
    assert_eq!(cl.state, LoopState::Running);
}

#[test]
fn shutdown_request_stops_the_loop() {
    let mut cl = CaptureLoop::new();
    let slot = SessionSlot::new();
    let out = cl.iterate(&slot, true, PollOutcome::Frame(tcp_frame()));
    assert!(out.decoded.is_none());
    assert_eq!(cl.state, LoopState::Stopping);
    assert_eq!(cl.counters.count(&PacketType::TCP), 0);
    cl.finish();
    assert_eq!(cl.state, LoopState::Stopped);
}

#[test]
fn empty_poll_yields_and_failed_poll_backs_off() {
    let mut cl = CaptureLoop::new();
    let slot = SessionSlot::new();
    let out = cl.iterate(&slot, false, PollOutcome::Empty);
    assert_eq!(out.pacing, Pacing::YieldNow);
    assert!(out.decoded.is_none());
    let out = cl.iterate(&slot, false, PollOutcome::Failed);
    assert_eq!(out.pacing, Pacing::Backoff);
    assert_eq!(cl.counters.count(&PacketType::TCP), 0);
    assert_eq!(cl.state, LoopState::Running);
}

#[test]
fn undecodable_frame_is_not_counted_but_loop_goes_on() {
    let mut cl = CaptureLoop::new();
    let slot = SessionSlot::new();
    let out = cl.iterate(&slot, false, PollOutcome::Frame(vec![1, 2, 3]));
    assert!(out.decoded.is_none());
    assert_eq!(out.pacing, Pacing::Proceed);
    assert_eq!(cl.state, LoopState::Running);
    assert!(cl.counters.is_empty());
    let out = cl.iterate(&slot, false, PollOutcome::Frame(tcp_frame()));
    assert!(out.decoded.is_some());
    assert_eq!(cl.counters.count(&PacketType::TCP), 1);
}

#[test]
fn blank_filters_are_no_ops() {
    assert!(filter_is_noop(""));
    assert!(filter_is_noop("   \t\r\n"));
    assert!(!filter_is_noop("tcp"));
    assert!(!filter_is_noop("  port 53  "));
}
