use usb_tone::error::StreamError;
use usb_tone::frame::FrameBuffer;
use usb_tone::tone::ToneGenerator;

fn ramp() -> ToneGenerator {
    ToneGenerator::new(1, 8, 7, vec![0, 1, 2, 3, 4, 5, 6, 7]).unwrap()
}

#[test]
fn buffer_layout_of_six_packets() {
    let b = FrameBuffer::new(6, 128, 2).unwrap();
    assert_eq!(b.sample_capacity(), 384);
    assert_eq!(b.frame_capacity(), 192);
    assert_eq!(b.channel_count(), 2);
    assert_eq!(b.packets_written(), 0);
    assert!(b.packet_lengths().is_empty());
    assert!(b.samples().iter().all(|s| *s == 0));
}

#[test]
fn buffer_rejects_bad_layout() {
    assert_eq!(FrameBuffer::new(0, 128, 2).err(), Some(StreamError::InvalidConfig));
    assert_eq!(FrameBuffer::new(6, 0, 2).err(), Some(StreamError::InvalidConfig));
    assert_eq!(FrameBuffer::new(6, 128, 0).err(), Some(StreamError::InvalidConfig));
    assert_eq!(FrameBuffer::new(1, 6, 2).err(), Some(StreamError::InvalidConfig));
    assert_eq!(FrameBuffer::new(1, 3, 1).err(), Some(StreamError::InvalidConfig));
}

#[test]
fn write_interleaves_channels_and_records_packets() {
    let mut b = FrameBuffer::new(2, 6, 3).unwrap();
    assert_eq!(b.frame_capacity(), 2);
    assert_eq!(b.write(&ramp(), 5, 2), Ok(()));
    assert_eq!(b.samples(), vec![5, 5, 5, 6, 6, 6]);
    assert_eq!(b.packets_written(), 2);
    assert_eq!(b.packet_lengths(), vec![6, 6]);
    assert_eq!(b.sample(3), 6);
}

#[test]
fn write_refuses_partial_frame() {
    let mut b = FrameBuffer::new(2, 4, 1).unwrap();
    assert_eq!(b.write(&ramp(), 0, 3), Err(StreamError::PartialFrameWrite));
    assert_eq!(b.write(&ramp(), 0, 5), Err(StreamError::PartialFrameWrite));
    assert_eq!(b.samples(), vec![0, 0, 0, 0]);
    assert_eq!(b.packets_written(), 0);
    assert_eq!(b.write(&ramp(), 0, 4), Ok(()));
    assert_eq!(b.samples(), vec![0, 1, 2, 3]);
}

#[test]
fn write_refuses_clock_overflow() {
    let mut b = FrameBuffer::new(1, 4, 1).unwrap();
    assert_eq!(b.write(&ramp(), u64::MAX - 1, 2), Err(StreamError::ClockOverflow));
    assert_eq!(b.packets_written(), 0);
    assert_eq!(b.write(&ramp(), u64::MAX - 2, 2), Ok(()));
}
