use usb_tone::error::StreamError;
use usb_tone::pool::{BufferPool, SlotState};
use usb_tone::tone::ToneGenerator;

fn ramp() -> ToneGenerator {
    ToneGenerator::new(1, 8, 7, vec![0, 1, 2, 3, 4, 5, 6, 7]).unwrap()
}

#[test]
fn exhaustion_after_buffer_count_acquires() {
    let mut p = BufferPool::new(3, 6, 128, 2).unwrap();
    assert_eq!(p.acquire_free(), Ok(0));
    assert_eq!(p.acquire_free(), Ok(1));
    assert_eq!(p.acquire_free(), Ok(2));
    assert_eq!(p.acquire_free(), Err(StreamError::PoolExhausted));
}

#[test]
fn acquire_never_hands_out_a_held_slot() {
    let mut p = BufferPool::new(2, 1, 4, 1).unwrap();
    let a = p.acquire_free().unwrap();
    let b = p.acquire_free().unwrap();
    assert_ne!(a, b);
    assert_eq!(p.acquire(a), Err(StreamError::InvalidSlotState));
    assert_eq!(p.write_slot(a, &ramp(), 0), Ok(()));
    assert_eq!(p.submit(a), Ok(()));
    assert_eq!(p.acquire_free(), Err(StreamError::PoolExhausted));
    assert_eq!(p.release(a), Ok(()));
    assert_eq!(p.acquire_free(), Ok(a));
}

#[test]
fn release_of_free_or_pending_slot_fails() {
    let mut p = BufferPool::new(3, 1, 4, 1).unwrap();
    assert_eq!(p.release(0), Err(StreamError::InvalidSlotState));
    assert_eq!(p.release(7), Err(StreamError::InvalidSlotState));
    let i = p.acquire_free().unwrap();
    assert_eq!(p.release(i), Err(StreamError::InvalidSlotState));
    assert_eq!(p.write_slot(i, &ramp(), 0), Ok(()));
    assert_eq!(p.submit(i), Ok(()));
    assert_eq!(p.release(i), Ok(()));
    assert_eq!(p.release(i), Err(StreamError::InvalidSlotState));
    assert_eq!(p.state(i), SlotState::Free);
}

#[test]
fn submit_requires_a_full_write() {
    let mut p = BufferPool::new(2, 1, 4, 1).unwrap();
    assert_eq!(p.submit(0), Err(StreamError::InvalidSlotState));
    let i = p.acquire_free().unwrap();
    assert_eq!(p.submit(i), Err(StreamError::PartialFrameWrite));
    assert_eq!(p.write_slot(1, &ramp(), 0), Err(StreamError::InvalidSlotState));
    assert_eq!(p.write_slot(i, &ramp(), u64::MAX - 1), Err(StreamError::ClockOverflow));
    assert_eq!(p.write_slot(i, &ramp(), 2), Ok(()));
    assert_eq!(p.buffer(i).samples(), vec![2, 3]);
    assert_eq!(p.submit(i), Ok(()));
    assert_eq!(p.state(i), SlotState::InFlight);
}

#[test]
fn reacquired_slot_must_be_written_again() {
    let mut p = BufferPool::new(2, 1, 4, 1).unwrap();
    let i = p.acquire(1).unwrap();
    assert_eq!(p.write_slot(i, &ramp(), 0), Ok(()));
    assert_eq!(p.submit(i), Ok(()));
    assert_eq!(p.release(i), Ok(()));
    assert_eq!(p.acquire(1), Ok(1));
    assert_eq!(p.submit(1), Err(StreamError::PartialFrameWrite));
}

#[test]
fn stop_lists_in_flight_slots_and_refuses_work() {
    let mut p = BufferPool::new(3, 1, 4, 1).unwrap();
    for i in [0usize, 2] {
        p.acquire(i).unwrap();
        p.write_slot(i, &ramp(), 0).unwrap();
        p.submit(i).unwrap();
    }
    p.acquire(1).unwrap();
    assert_eq!(p.stop(), vec![0, 2]);
    assert!(!p.is_accepting());
    assert_eq!(p.acquire_free(), Err(StreamError::StreamStopped));
    assert_eq!(p.submit(1), Err(StreamError::StreamStopped));
    assert_eq!(p.release(0), Ok(()));
}

#[test]
fn pool_rejects_bad_config() {
    assert_eq!(BufferPool::new(1, 6, 128, 2).err(), Some(StreamError::InvalidConfig));
    assert_eq!(BufferPool::new(3, 6, 128, 0).err(), Some(StreamError::InvalidConfig));
    let p = BufferPool::new(2, 6, 128, 2).unwrap();
    assert_eq!(p.len(), 2);
    assert_eq!(p.frame_len(), 192);
}

#[test]
fn fresh_pool_buffers_are_silent() {
    let p = BufferPool::new(3, 6, 128, 2).unwrap();
    for i in 0..3 {
        let b = p.buffer(i);
        assert_eq!(b.packets_written(), 0);
        assert_eq!(b.sample_capacity(), 384);
        assert!(b.samples().iter().all(|s| *s == 0));
        assert_eq!(p.state(i), SlotState::Free);
    }
}
