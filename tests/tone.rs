use usb_tone::error::StreamError;
use usb_tone::tone::ToneGenerator;

fn sine_period(sample_rate: u32, peak: u16) -> Vec<i16> {
    (0..sample_rate)
        .map(|k| {
            let x = 2.0 * std::f64::consts::PI * (k as f64) / (sample_rate as f64);
            (peak as f64 * x.sin()).round() as i16
        })
        .collect()
}

#[test]
fn value_looks_up_phase_of_frame_index() {
    let g = ToneGenerator::new(1, 4, 10, vec![0, 10, 0, -10]).unwrap();
    assert_eq!(g.value(0), 0);
    assert_eq!(g.value(1), 10);
    assert_eq!(g.value(3), -10);
    assert_eq!(g.value(5), 10);
    let g3 = ToneGenerator::new(3, 4, 10, vec![0, 10, 0, -10]).unwrap();
    assert_eq!(g3.value(1), -10);
    assert_eq!(g3.value(2), 0);
    assert_eq!(g3.value(3), 10);
}

#[test]
fn value_is_pure() {
    let a = ToneGenerator::new(440, 32000, 32767, sine_period(32000, 32767)).unwrap();
    let b = ToneGenerator::new(440, 32000, 32767, sine_period(32000, 32767)).unwrap();
    for n in [0u64, 1, 383, 384, 1151, 31999, 32000, 1_000_000, u64::MAX] {
        let first = a.value(n);
        assert_eq!(a.value(n), first);
        assert_eq!(b.value(n), first);
        assert!(first >= -32767 && first <= 32767);
    }
}

#[test]
fn value_matches_rounded_sine() {
    let g = ToneGenerator::new(440, 32000, 32767, sine_period(32000, 32767)).unwrap();
    for n in 0u64..2000 {
        let x = 2.0 * std::f64::consts::PI * 440.0 * (n as f64) / 32000.0;
        let expected = (32767.0 * x.sin()).round() as i16;
        assert_eq!(g.value(n), expected, "frame index {}", n);
    }
}

#[test]
fn tone_rejects_bad_parameters() {
    assert_eq!(ToneGenerator::new(440, 0, 100, vec![]).err(), Some(StreamError::InvalidConfig));
    assert_eq!(ToneGenerator::new(1, 4, 32768, vec![0, 0, 0, 0]).err(), Some(StreamError::InvalidConfig));
    assert_eq!(ToneGenerator::new(1, 4, 10, vec![0, 10, 0]).err(), Some(StreamError::InvalidConfig));
    assert_eq!(ToneGenerator::new(1, 4, 10, vec![0, 11, 0, -10]).err(), Some(StreamError::InvalidConfig));
    assert_eq!(ToneGenerator::new(1, 4, 10, vec![0, 10, 0, -11]).err(), Some(StreamError::InvalidConfig));
    let g = ToneGenerator::new(7, 4, 10, vec![0, 10, 0, -10]).unwrap();
    assert_eq!(g.frequency(), 7);
    assert_eq!(g.sample_rate(), 4);
    assert_eq!(g.peak_amplitude(), 10);
}
