use usb_tone::error::StreamError;
use usb_tone::pool::{BufferPool, SlotState};
use usb_tone::scheduler::StreamScheduler;
use usb_tone::session::{Completion, Phase, Session, StreamConfig, TransferStatus};
use usb_tone::tone::ToneGenerator;

fn sine_period(sample_rate: u32, peak: u16) -> Vec<i16> {
    (0..sample_rate)
        .map(|k| {
            let x = 2.0 * std::f64::consts::PI * (k as f64) / (sample_rate as f64);
            (peak as f64 * x.sin()).round() as i16
        })
        .collect()
}

fn direct_sine(n: u64) -> i16 {
    let x = 2.0 * std::f64::consts::PI * 440.0 * (n as f64) / 32000.0;
    (32767.0 * x.sin()).round() as i16
}

fn a4_config() -> StreamConfig {
    StreamConfig {
        frequency: 440,
        sample_rate: 32000,
        channel_count: 2,
        peak_amplitude: 32767,
        packets_per_frame: 12,
        bytes_per_packet: 128,
        buffer_count: 3,
    }
}

fn a4_session() -> Session {
    Session::start(a4_config(), sine_period(32000, 32767)).unwrap()
}

fn ramp() -> ToneGenerator {
    ToneGenerator::new(1, 64, 63, (0..64).collect()).unwrap()
}

#[test]
fn end_to_end_first_frames() {
    let mut s = a4_session();
    let l: u64 = 384;
    assert_eq!(s.buffer(0).frame_capacity(), 384);
    assert_eq!(s.buffer(0).sample(0), 0);
    for n in 0..l {
        let expected = direct_sine(n);
        assert_eq!(s.buffer(0).sample(2 * n as usize), expected);
        assert_eq!(s.buffer(0).sample(2 * n as usize + 1), expected);
    }
    assert_eq!(s.buffer(1).sample(0), direct_sine(l));
    assert_ne!(s.buffer(1).sample(0), s.buffer(0).sample(0));
    assert_eq!(s.on_completion(0, TransferStatus::Completed), Ok(Completion::Resubmit));
    assert_eq!(s.buffer(0).sample(0), direct_sine(3 * l));
    assert_eq!(s.clock(), 4 * l);
    assert_eq!(s.buffer(0).packet_lengths(), vec![128; 12]);
}

#[test]
fn phase_continuity_across_refills() {
    let mut pool = BufferPool::new(3, 1, 8, 2).unwrap();
    let mut sched = StreamScheduler::new(ramp(), 2);
    assert_eq!(sched.prime_all(&mut pool), Ok(()));
    let mut stream: Vec<i16> = Vec::new();
    for i in 0..3 {
        stream.extend(pool.buffer(i).samples());
    }
    for k in 0..7usize {
        let slot = k % 3;
        assert_eq!(pool.release(slot), Ok(()));
        assert_eq!(sched.refill(&mut pool, slot), Ok(()));
        stream.extend(pool.buffer(slot).samples());
    }
    let frames = 2 * (3 + 7) as u64;
    assert_eq!(sched.clock(), frames);
    let g = ramp();
    let expected: Vec<i16> = (0..frames).flat_map(|n| [g.value(n), g.value(n)]).collect();
    assert_eq!(stream, expected);
}

#[test]
fn refill_refuses_slot_in_flight() {
    let mut pool = BufferPool::new(2, 1, 8, 2).unwrap();
    let mut sched = StreamScheduler::new(ramp(), 2);
    sched.prime_all(&mut pool).unwrap();
    assert_eq!(sched.refill(&mut pool, 0), Err(StreamError::InvalidSlotState));
    assert_eq!(sched.refill(&mut pool, 5), Err(StreamError::InvalidSlotState));
    assert_eq!(sched.prime_all(&mut pool), Err(StreamError::InvalidSlotState));
    assert_eq!(sched.clock(), 4);
    assert_eq!(sched.generator().frequency(), 1);
}

#[test]
fn teardown_cancels_in_flight_slots() {
    let mut s = a4_session();
    assert_eq!(s.on_completion(1, TransferStatus::Failed), Err(StreamError::TransferFailed));
    assert_eq!(s.slot_state(1), SlotState::Free);
    let to_cancel = s.stop();
    assert_eq!(to_cancel, vec![0, 2]);
    assert_eq!(s.phase(), Phase::Stopping);
    assert_eq!(s.finish_stop(), Err(StreamError::InvalidSlotState));
    assert_eq!(s.on_completion(0, TransferStatus::Cancelled), Ok(Completion::Retired));
    assert_eq!(s.finish_stop(), Err(StreamError::InvalidSlotState));
    assert_eq!(s.on_completion(2, TransferStatus::Cancelled), Ok(Completion::Retired));
    assert_eq!(s.finish_stop(), Ok(()));
    assert_eq!(s.phase(), Phase::Stopped);
    assert_eq!(s.acquire_free(), Err(StreamError::StreamStopped));
    assert_eq!(s.on_completion(0, TransferStatus::Completed), Err(StreamError::StreamStopped));
}

#[test]
fn failed_transfer_can_be_resubmitted() {
    let mut s = a4_session();
    assert_eq!(s.on_completion(2, TransferStatus::Cancelled), Err(StreamError::TransferFailed));
    assert_eq!(s.clock(), 3 * 384);
    assert_eq!(s.resubmit(2), Ok(()));
    assert_eq!(s.slot_state(2), SlotState::InFlight);
    assert_eq!(s.buffer(2).sample(0), direct_sine(3 * 384));
    assert_eq!(s.resubmit(2), Err(StreamError::InvalidSlotState));
}

#[test]
fn completion_of_slot_not_in_flight_is_refused() {
    let mut s = a4_session();
    assert_eq!(s.on_completion(3, TransferStatus::Completed), Err(StreamError::InvalidSlotState));
    assert_eq!(s.on_completion(1, TransferStatus::Failed), Err(StreamError::TransferFailed));
    assert_eq!(s.on_completion(1, TransferStatus::Completed), Err(StreamError::InvalidSlotState));
    assert_eq!(s.acquire_free(), Ok(1));
    assert_eq!(s.slot_state(1), SlotState::InFlight);
    assert_eq!(s.buffer(1).sample(0), direct_sine(3 * 384));
    assert_eq!(s.clock(), 4 * 384);
    assert_eq!(s.acquire_free(), Err(StreamError::PoolExhausted));
}

#[test]
fn start_rejects_bad_config() {
    let mut c = a4_config();
    c.buffer_count = 1;
    assert_eq!(Session::start(c, sine_period(32000, 32767)).err(), Some(StreamError::InvalidConfig));
    let mut c = a4_config();
    c.channel_count = 0;
    assert_eq!(Session::start(c, sine_period(32000, 32767)).err(), Some(StreamError::InvalidConfig));
    let c = a4_config();
    assert_eq!(Session::start(c, sine_period(16000, 32767)).err(), Some(StreamError::InvalidConfig));
    let s = a4_session();
    assert_eq!(s.slot_count(), 3);
    assert_eq!(s.phase(), Phase::Running);
    assert!((0..3).all(|i| s.slot_state(i) == SlotState::InFlight));
}

#[test]
fn fill_is_pure_across_slots_and_histories() {
    let mut pool_a = BufferPool::new(3, 1, 8, 2).unwrap();
    let mut sched_a = StreamScheduler::new(ramp(), 2);
    sched_a.prime_all(&mut pool_a).unwrap();
    let mut pool_b = BufferPool::new(3, 1, 8, 2).unwrap();
    let mut sched_b = StreamScheduler::new(ramp(), 2);
    sched_b.refill(&mut pool_b, 0).unwrap();
    for _ in 0..2 {
        pool_b.release(0).unwrap();
        sched_b.refill(&mut pool_b, 0).unwrap();
    }
    assert_eq!(sched_a.clock(), sched_b.clock());
    pool_a.release(1).unwrap();
    sched_a.refill(&mut pool_a, 1).unwrap();
    sched_b.refill(&mut pool_b, 2).unwrap();
    assert_eq!(pool_a.buffer(1).samples(), pool_b.buffer(2).samples());
    assert_eq!(pool_a.buffer(1).samples(), vec![6, 6, 7, 7]);
}

#[test]
fn stop_keeps_clock_and_buffers() {
    let mut s = a4_session();
    assert_eq!(s.on_completion(0, TransferStatus::Completed), Ok(Completion::Resubmit));
    let clock = s.clock();
    let before: Vec<Vec<i16>> = (0..3).map(|i| s.buffer(i).samples()).collect();
    assert_eq!(s.stop(), vec![0, 1, 2]);
    assert_eq!(s.clock(), clock);
    for i in 0..3 {
        assert_eq!(s.buffer(i).samples(), before[i]);
    }
    assert_eq!(s.on_completion(1, TransferStatus::Completed), Ok(Completion::Retired));
    assert_eq!(s.clock(), clock);
    assert_eq!(s.buffer(1).samples(), before[1]);
}

#[test]
fn completion_touches_only_its_slot() {
    let mut s = a4_session();
    let before: Vec<Vec<i16>> = (0..3).map(|i| s.buffer(i).samples()).collect();
    assert_eq!(s.on_completion(1, TransferStatus::Completed), Ok(Completion::Resubmit));
    assert_eq!(s.buffer(0).samples(), before[0]);
    assert_eq!(s.buffer(2).samples(), before[2]);
    assert_ne!(s.buffer(1).samples(), before[1]);
    assert_eq!(s.buffer(1).packets_written(), 12);
    assert_eq!(s.buffer(1).packet_lengths(), vec![128; 12]);
    assert_eq!(s.on_completion(2, TransferStatus::Failed), Err(StreamError::TransferFailed));
    assert_eq!(s.buffer(2).samples(), before[2]);
    assert_eq!(s.buffer(0).samples(), before[0]);
}

#[test]
fn resubmit_writes_next_frame() {
    let mut s = a4_session();
    let before0 = s.buffer(0).samples();
    assert_eq!(s.on_completion(1, TransferStatus::Failed), Err(StreamError::TransferFailed));
    assert_eq!(s.resubmit(1), Ok(()));
    let frame = s.buffer(1).samples();
    for n in 0..384u64 {
        assert_eq!(frame[2 * n as usize], direct_sine(3 * 384 + n));
        assert_eq!(frame[2 * n as usize + 1], direct_sine(3 * 384 + n));
    }
    assert_eq!(s.buffer(0).samples(), before0);
    assert_eq!(s.buffer(1).packet_lengths(), vec![128; 12]);
}
