use sav1n::aom_firstpass::AomFirstpass;
use sav1n::stats_processor::{FrameStats, StatsProcessor, FORCED_KEYFRAME_GAP, LOOKAHEAD};
use std::collections::VecDeque;

fn record(frame: u64) -> AomFirstpass {
    let mut r = AomFirstpass::empty();
    r.frame = (frame as f64).to_bits();
    r.pcnt_inter = 0.97f64.to_bits();
    r
}

// Runs the sequencer over the records 0..count as a reader of the
// statistics would, with `fires` standing for the heuristic.
fn run(count: u64, fires: impl Fn(&StatsProcessor) -> bool) -> Vec<FrameStats> {
    assert!(count > LOOKAHEAD as u64);
    let lookahead: VecDeque<AomFirstpass> = (1..=LOOKAHEAD as u64).map(record).collect();
    let mut processor = StatsProcessor::new(record(0), lookahead);
    let mut next = LOOKAHEAD as u64 + 1;
    let mut events = Vec::new();
    loop {
        let candidate = fires(&processor);
        events.push(processor.decide(candidate));
        if next < count {
            processor.refill(record(next));
            next += 1;
        } else {
            events.extend(processor.drain());
            return events;
        }
    }
}

#[test]
fn forced_keyframe_at_the_thousandth_frame() {
    let events = run(1001 + LOOKAHEAD as u64, |_| false);
    let keyframes: Vec<u64> =
        events.iter().filter(|e| e.is_keyframe).map(|e| e.frame_num).collect();
    assert_eq!(keyframes, vec![999]);
    assert!(events[..999].iter().all(|e| !e.is_keyframe));
    assert!(events[999].is_keyframe);
    assert!(!events[1000].is_keyframe);
}

#[test]
fn the_last_sixteen_records_are_never_keyframes() {
    let events = run(1001, |_| true);
    assert_eq!(events.len(), 1001);
    assert!(events[..1001 - LOOKAHEAD].iter().all(|e| e.is_keyframe));
    assert!(events[1001 - LOOKAHEAD..].iter().all(|e| !e.is_keyframe));
    let events = run(1001, |_| false);
    assert!(events.iter().all(|e| !e.is_keyframe));
}

#[test]
fn one_event_per_record_in_order() {
    for count in [17u64, 18, 40, 2500] {
        let events = run(count, |p| p.since_last_keyframe() % 7 == 0);
        let numbers: Vec<u64> = events.iter().map(|e| e.frame_num).collect();
        assert_eq!(numbers, (0..count).collect::<Vec<u64>>());
    }
}

#[test]
fn forced_keyframes_come_every_thousand_frames() {
    let events = run(3200, |_| false);
    let keyframes: Vec<u64> =
        events.iter().filter(|e| e.is_keyframe).map(|e| e.frame_num).collect();
    assert_eq!(keyframes, vec![999, 1999, 2999]);
}

#[test]
fn forced_keyframe_does_not_ask_the_heuristic() {
    for candidate in [false, true] {
        let lookahead: VecDeque<AomFirstpass> = (1..=16).map(record).collect();
        let mut processor = StatsProcessor::new(record(0), lookahead);
        for i in 0..FORCED_KEYFRAME_GAP - 1 {
            assert_eq!(processor.since_last_keyframe(), i + 1);
            assert!(!processor.decide(false).is_keyframe);
            processor.refill(record(17 + i));
        }
        assert_eq!(processor.since_last_keyframe(), FORCED_KEYFRAME_GAP);
        let event = processor.decide(candidate);
        assert_eq!(event, FrameStats { frame_num: 999, is_keyframe: true });
        assert_eq!(processor.since_last_keyframe(), 1);
    }
}

#[test]
fn count_restarts_after_a_keyframe() {
    let lookahead: VecDeque<AomFirstpass> = (1..=16).map(record).collect();
    let mut processor = StatsProcessor::new(record(0), lookahead);
    assert_eq!(processor.since_last_keyframe(), 1);
    assert_eq!(processor.current().frame_number(), 0);
    assert_eq!(processor.last().frame_number(), 0);
    assert_eq!(processor.decide(false), FrameStats { frame_num: 0, is_keyframe: false });
    assert_eq!(processor.since_last_keyframe(), 2);
    assert_eq!(processor.lookahead().len(), 15);
    processor.refill(record(17));
    assert_eq!(processor.decide(true), FrameStats { frame_num: 1, is_keyframe: true });
    assert_eq!(processor.since_last_keyframe(), 1);
    assert_eq!(processor.current().frame_number(), 2);
    assert_eq!(processor.last().frame_number(), 1);
    assert_eq!(processor.lookahead()[0].frame_number(), 3);
    let rest = processor.drain();
    assert_eq!(rest.len(), 16);
    assert_eq!(rest[0], FrameStats { frame_num: 2, is_keyframe: false });
    assert_eq!(rest[15], FrameStats { frame_num: 17, is_keyframe: false });
}
