use ledstrip::apa102::ARGB8;
use ledstrip::display::HandOff;
use ledstrip::pipeline::{FrameCounts, OutputStage};
use ledstrip::transform::Transform;

#[test]
fn busy_output_drops_and_keeps_rendering() {
    let mut counts = FrameCounts::new();
    for _ in 0..5 {
        assert!(counts.record(HandOff::Busy));
    }
    assert!(counts.record(HandOff::Taken));
    assert_eq!(counts, FrameCounts { delivered: 1, dropped: 5 });
}

#[test]
fn closed_output_stops_rendering() {
    let mut counts = FrameCounts { delivered: 3, dropped: 2 };
    assert!(!counts.record(HandOff::Closed));
    assert_eq!(counts, FrameCounts { delivered: 3, dropped: 2 });
}

#[test]
fn counts_hold_at_maximum() {
    let mut counts = FrameCounts { delivered: u64::MAX, dropped: u64::MAX };
    assert!(counts.record(HandOff::Taken));
    assert!(counts.record(HandOff::Busy));
    assert_eq!(counts, FrameCounts { delivered: u64::MAX, dropped: u64::MAX });
}

#[test]
fn output_stage_wires_then_encodes() {
    let t = Transform::new(2, 2, vec![false, true], vec![1, 0]);
    let mut stage = OutputStage::new(t, 4);
    let frame = vec![
        ARGB8::new(1, 10, 11, 12),
        ARGB8::new(2, 20, 21, 22),
        ARGB8::new(3, 30, 31, 32),
        ARGB8::new(31, 40, 41, 42),
    ];
    stage.prepare(&frame);
    assert_eq!(
        stage.buffer(),
        &vec![
            0, 0, 0, 0, //
            0xE3, 32, 31, 30, //
            0xFF, 42, 41, 40, //
            0xE2, 22, 21, 20, //
            0xE1, 12, 11, 10, //
            0xFF, 0, 0, 0, 0, 0
        ]
    );
}
