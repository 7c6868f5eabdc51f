use obrero_core::pattern::{euclidean_hits, NoteEvent, StepMode, PPQN};
use obrero_core::{ChannelMode, Pattern, Step, Track};

#[test]
fn ppqn_is_midi_clock_resolution() {
    assert_eq!(PPQN, 24);
}

#[test]
fn euclidean_hits_classic_rhythms() {
    let e38: Vec<bool> = euclidean_hits(3, 8);
    assert_eq!(e38, vec![true, false, false, true, false, false, true, false]);
    let e58 = euclidean_hits(5, 8);
    assert_eq!(e58, vec![true, false, true, false, true, true, false, true]);
    // steps = 0 se trata como 1 paso
    assert_eq!(euclidean_hits(0, 0), vec![false]);
    assert_eq!(euclidean_hits(1, 0), vec![true]);
}

#[test]
fn euclidean_hit_count_equals_pulses() {
    for n in 1..=64u8 {
        for k in 0..=n {
            let hits = euclidean_hits(k, n);
            assert_eq!(hits.len(), n as usize);
            assert_eq!(hits.iter().filter(|h| **h).count(), k as usize, "E({k},{n})");
            if k > 0 {
                assert!(hits[0]);
            }
        }
    }
}

#[test]
fn new_track_is_manual_and_silent() {
    let t = Track::new(3, 42, 12);
    assert_eq!(t.channel, 3);
    assert_eq!(t.len, 12);
    assert_eq!(t.steps.len(), 12);
    assert!(!t.muted);
    assert_eq!(t.mode, StepMode::Manual);
    assert!(t
        .steps
        .iter()
        .all(|s| *s == Step { on: false, note: 42, velocity: 100, gate_ticks: 3 }));
}

#[test]
fn apply_euclidean_keeps_step_settings_and_grid_tail() {
    let mut t = Track::new(0, 50, 16);
    t.steps[0].velocity = 77;
    t.steps[10].on = true;
    t.apply_euclidean(2, 4);
    assert_eq!(t.len, 4);
    assert_eq!(t.steps.len(), 16);
    assert_eq!(t.mode, StepMode::Euclidean { pulses: 2, steps: 4 });
    let on: Vec<bool> = t.steps[..4].iter().map(|s| s.on).collect();
    assert_eq!(on, vec![true, false, true, false]);
    assert_eq!(t.steps[0].velocity, 77);
    // Lo que está más allá del largo activo no se toca
    assert!(t.steps[10].on);
    t.set_manual();
    assert_eq!(t.mode, StepMode::Manual);
    assert_eq!(t.len, 16);
}

#[test]
fn apply_euclidean_grows_the_grid_from_the_first_step() {
    let mut t = Track::new(0, 50, 2);
    t.steps[0] = Step { on: true, note: 36, velocity: 90, gate_ticks: 5 };
    t.apply_euclidean(1, 6);
    assert_eq!(t.steps.len(), 6);
    assert_eq!(t.steps[5], Step { on: false, note: 36, velocity: 90, gate_ticks: 5 });
    // Sin pasos, la base es la nota 60
    let mut empty = Track::new(0, 50, 0);
    empty.apply_euclidean(1, 1);
    assert_eq!(empty.steps, vec![Step { on: true, note: 60, velocity: 100, gate_ticks: 3 }]);
}

#[test]
fn starter_pattern_layout() {
    let p = Pattern::starter();
    assert_eq!(p.tracks.len(), 5);
    assert_eq!(p.ticks_per_step, 6);
    assert_eq!(p.channel_mode, ChannelMode::PerTrack);
    for (i, t) in p.tracks.iter().enumerate() {
        assert_eq!(t.steps[0].note, 60 + i as u8);
        assert_eq!(t.len, 16);
    }
    assert!(p.is_wf());
}

#[test]
fn events_only_on_step_boundaries() {
    let mut p = Pattern::starter();
    p.tracks[2].steps[1].on = true;
    let mut out = Vec::new();
    p.events_at(7, &mut out);
    assert!(out.is_empty());
    p.events_at(6, &mut out);
    assert_eq!(out, vec![NoteEvent { channel: 0, note: 62, velocity: 100, gate_ticks: 3 }]);
}

#[test]
fn polymeter_each_track_wraps_at_its_own_length() {
    let mut p = Pattern::starter();
    p.tracks[0].steps[0].on = true;
    p.tracks[1].steps[0].on = true;
    p.tracks[1].len = 3;
    let mut fired = Vec::new();
    for step in 0..12u32 {
        let mut out = Vec::new();
        p.events_at(step * 6, &mut out);
        for e in out {
            fired.push((step, e.note));
        }
    }
    assert_eq!(fired, vec![(0, 60), (0, 61), (3, 61), (6, 61), (9, 61)]);
}

#[test]
fn muted_and_empty_tracks_are_silent_and_single_channel_routes() {
    let mut p = Pattern::starter();
    for t in p.tracks.iter_mut() {
        t.steps[0].on = true;
    }
    p.tracks[0].muted = true;
    p.tracks[1].len = 0;
    p.tracks[3].channel = 4;
    p.channel_mode = ChannelMode::Single(9);
    let mut out = Vec::new();
    p.events_at(0, &mut out);
    let notes: Vec<u8> = out.iter().map(|e| e.note).collect();
    assert_eq!(notes, vec![62, 63, 64]);
    assert!(out.iter().all(|e| e.channel == 9));
}

#[test]
fn is_wf_detects_a_length_past_the_grid() {
    let mut p = Pattern::starter();
    p.tracks[4].len = 17;
    assert!(!p.is_wf());
}
