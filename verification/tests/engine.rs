use std::sync::atomic::Ordering;
use std::sync::Arc;

use chopper::engine::{Command, Sequencer, VoiceStart};
use chopper::Note;
use chopper::SharedState;

fn note(slice: u8, semis: i8) -> Note {
    Note { slice, semis }
}

fn sixteen_slices() -> Vec<(usize, usize)> {
    (0..16).map(|i| (i * 100, (i + 1) * 100)).collect()
}

fn fresh() -> (Sequencer, Arc<SharedState>) {
    let shared = SharedState::new();
    (Sequencer::new(sixteen_slices(), Arc::clone(&shared)), shared)
}

#[test]
fn shared_state_starts_empty() {
    let shared = SharedState::new();
    assert_eq!(shared.current_step.load(Ordering::Relaxed), 0);
    assert_eq!(shared.vu.load(Ordering::Relaxed), 0);
    assert_eq!(*shared.pattern.lock().unwrap(), [None; 16]);
}

#[test]
fn new_sequencer_is_empty_and_playing() {
    let (seq, _) = fresh();
    assert_eq!(seq.pattern(), [None; 16]);
    assert_eq!(seq.step(), 0);
    assert!(seq.is_playing());
    assert!(!seq.is_recording());
    for v in 0..16 {
        assert!(!seq.is_active(v));
    }
}

#[test]
fn set_step_writes_one_step_and_publishes() {
    let (mut seq, shared) = fresh();
    assert_eq!(seq.apply(Command::SetStep(3, Some(note(5, -2))), false), None);
    let mut expected = [None; 16];
    expected[3] = Some(note(5, -2));
    assert_eq!(seq.pattern(), expected);
    assert_eq!(*shared.pattern.lock().unwrap(), expected);
}

#[test]
fn set_step_out_of_range_is_ignored() {
    let (mut seq, _) = fresh();
    seq.apply(Command::SetStep(16, Some(note(1, 0))), false);
    assert_eq!(seq.pattern(), [None; 16]);
}

#[test]
fn set_pattern_and_clear() {
    let (mut seq, shared) = fresh();
    let mut p = [None; 16];
    p[0] = Some(note(0, 0));
    p[15] = Some(note(8, -12));
    seq.apply(Command::SetPattern(p), true);
    assert_eq!(seq.pattern(), p);
    assert_eq!(*shared.pattern.lock().unwrap(), p);
    seq.apply(Command::Clear, true);
    assert_eq!(seq.pattern(), [None; 16]);
    assert_eq!(*shared.pattern.lock().unwrap(), [None; 16]);
}

#[test]
fn trigger_takes_first_idle_voice() {
    let (mut seq, _) = fresh();
    let a = seq.apply(Command::Trigger(note(2, 7)), false);
    assert_eq!(a, Some(VoiceStart { voice: 0, start: 200, end: 300, semis: 7 }));
    let b = seq.apply(Command::Trigger(note(3, 0)), false);
    assert_eq!(b, Some(VoiceStart { voice: 1, start: 300, end: 400, semis: 0 }));
    seq.release(0);
    let c = seq.apply(Command::Trigger(note(4, 0)), false);
    assert_eq!(c.map(|t| t.voice), Some(0));
}

#[test]
fn trigger_steals_voice_zero_when_all_busy() {
    let (mut seq, _) = fresh();
    for v in 0..16 {
        let t = seq.apply(Command::Trigger(note(1, 0)), false).unwrap();
        assert_eq!(t.voice, v);
    }
    let t = seq.apply(Command::Trigger(note(9, 3)), false).unwrap();
    assert_eq!(t, VoiceStart { voice: 0, start: 900, end: 1000, semis: 3 });
}

#[test]
fn trigger_of_missing_slice_does_nothing() {
    let (mut seq, _) = fresh();
    assert_eq!(seq.apply(Command::Trigger(note(16, 0)), false), None);
    for v in 0..16 {
        assert!(!seq.is_active(v));
    }
}

#[test]
fn trigger_records_only_when_recording_and_playing() {
    let (mut seq, _) = fresh();
    seq.apply(Command::Trigger(note(1, 0)), true);
    assert_eq!(seq.pattern(), [None; 16]);
    seq.apply(Command::Record(true), false);
    seq.apply(Command::Play(false), false);
    seq.apply(Command::Trigger(note(1, 0)), true);
    assert_eq!(seq.pattern(), [None; 16]);
    seq.apply(Command::Play(true), false);
    seq.apply(Command::Trigger(note(1, 0)), true);
    let mut expected = [None; 16];
    expected[0] = Some(note(1, 0));
    assert_eq!(seq.pattern(), expected);
}

#[test]
fn recorded_hit_is_quantized() {
    let (mut seq, _) = fresh();
    seq.apply(Command::Record(true), false);
    // Step 0 is due next: an early hit belongs to the step sounding now, step 15.
    seq.apply(Command::Trigger(note(4, 12)), false);
    assert_eq!(seq.pattern()[15], Some(note(4, 12)));
    seq.fire_step();
    seq.fire_step();
    // Step 2 is due next: a late hit lands on it.
    seq.apply(Command::Trigger(note(6, 0)), true);
    assert_eq!(seq.pattern()[2], Some(note(6, 0)));
    seq.apply(Command::Trigger(note(7, 0)), false);
    assert_eq!(seq.pattern()[1], Some(note(7, 0)));
}

#[test]
fn nearest_step_wraps_round() {
    let (seq, _) = fresh();
    assert_eq!(seq.nearest_step(true), 0);
    assert_eq!(seq.nearest_step(false), 15);
}

#[test]
fn fire_step_plays_pattern_and_cycles() {
    let (mut seq, shared) = fresh();
    seq.apply(Command::SetStep(1, Some(note(5, 2))), false);
    assert_eq!(seq.fire_step(), None);
    assert_eq!(shared.current_step.load(Ordering::Relaxed), 0);
    let t = seq.fire_step();
    assert_eq!(t, Some(VoiceStart { voice: 0, start: 500, end: 600, semis: 2 }));
    assert_eq!(shared.current_step.load(Ordering::Relaxed), 1);
    assert!(seq.is_active(0));
    for _ in 0..14 {
        seq.fire_step();
    }
    assert_eq!(seq.step(), 0);
    assert_eq!(shared.current_step.load(Ordering::Relaxed), 15);
}

#[test]
fn sixteen_steps_return_to_start() {
    let (mut seq, _) = fresh();
    for _ in 0..5 {
        seq.fire_step();
    }
    let start = seq.step();
    for _ in 0..16 {
        seq.fire_step();
    }
    assert_eq!(seq.step(), start);
}

#[test]
fn load_slices_silences_voices() {
    let (mut seq, _) = fresh();
    seq.apply(Command::Trigger(note(0, 0)), false);
    seq.apply(Command::Trigger(note(1, 0)), false);
    assert!(seq.is_active(1));
    seq.apply(Command::LoadSlices(vec![(0, 10), (10, 20)]), false);
    for v in 0..16 {
        assert!(!seq.is_active(v));
    }
    assert_eq!(seq.apply(Command::Trigger(note(2, 0)), false), None);
    assert_eq!(
        seq.apply(Command::Trigger(note(1, 0)), false),
        Some(VoiceStart { voice: 0, start: 10, end: 20, semis: 0 })
    );
}

#[test]
fn play_and_record_flags() {
    let (mut seq, _) = fresh();
    seq.apply(Command::Play(false), false);
    assert!(!seq.is_playing());
    seq.apply(Command::Record(true), false);
    assert!(seq.is_recording());
    assert_eq!(seq.step(), 0);
}

#[test]
fn advance_fires_only_while_playing_and_due() {
    let (mut seq, shared) = fresh();
    seq.apply(Command::SetStep(0, Some(note(3, 0))), false);
    assert_eq!(seq.advance(false), (false, None));
    assert_eq!(seq.step(), 0);
    let (fired, started) = seq.advance(true);
    assert!(fired);
    assert_eq!(started, Some(VoiceStart { voice: 0, start: 300, end: 400, semis: 0 }));
    assert_eq!(seq.step(), 1);
    assert_eq!(shared.current_step.load(Ordering::Relaxed), 0);
    seq.apply(Command::Play(false), false);
    assert_eq!(seq.advance(true), (false, None));
    assert_eq!(seq.step(), 1);
}

#[test]
fn sequencer_publishes_to_the_handle_it_was_given() {
    let (mut seq, shared) = fresh();
    seq.fire_step();
    seq.fire_step();
    assert_eq!(shared.current_step.load(Ordering::Relaxed), 1);
    seq.apply(Command::SetStep(9, Some(note(2, 5))), false);
    assert_eq!(shared.pattern.lock().unwrap()[9], Some(note(2, 5)));
}
