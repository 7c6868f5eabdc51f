use obrero_core::engine::{
    Sequencer, TimedMidi, Transport, Wakeup, MIDI_CLOCK, MIDI_START, MIDI_STOP,
};
use obrero_core::{Button, ChannelMode, ClockSource, InputEvent};

/// Período de tick a 120 BPM y 24 PPQN, redondeado a µs.
const PERIOD_US: u64 = 20_833;

fn clocks(events: &[TimedMidi]) -> Vec<u64> {
    events
        .iter()
        .filter(|e| e.bytes[0] == MIDI_CLOCK)
        .map(|e| e.at_us)
        .collect()
}

fn notes(events: &[TimedMidi]) -> Vec<(u64, u8, u8, u8)> {
    events
        .iter()
        .filter(|e| e.bytes[0] & 0xF0 == 0x90 || e.bytes[0] & 0xF0 == 0x80)
        .map(|e| (e.at_us, e.bytes[0], e.bytes[1], e.bytes[2]))
        .collect()
}

/// Arranca el reloj interno en t = 0 y dispara `n` ticks, uno cada
/// PERIOD_US. Devuelve cuántos ticks se dispararon (se corta si el corte
/// prolijo termina).
fn play_ticks(s: &mut Sequencer, n: u64, out: &mut Vec<TimedMidi>) -> u64 {
    s.emit_pending_stop(0, out);
    assert!(s.internal_clock_running());
    s.take_start(0, out);
    run_ticks(s, 0, n, out)
}

fn run_ticks(s: &mut Sequencer, first: u64, n: u64, out: &mut Vec<TimedMidi>) -> u64 {
    for i in 0..n {
        assert!(s.tick_scheduled());
        assert!(s.can_tick());
        if s.internal_tick((first + i) * PERIOD_US, out) {
            return i + 1;
        }
    }
    n
}

#[test]
fn play_emits_start_then_clock_every_tick() {
    let mut s = Sequencer::new();
    assert_eq!(s.wakeup(), Wakeup::Idle);
    s.play();
    assert_eq!(s.wakeup(), Wakeup::Now);
    let mut out = Vec::new();
    play_ticks(&mut s, 48, &mut out);
    assert_eq!(out[0].bytes[0], MIDI_START);
    assert_eq!(out[0].at_us, 0);
    let ticks = clocks(&out);
    assert_eq!(ticks.len(), 48);
    assert_eq!(ticks[0], 0);
    assert_eq!(ticks[47], 47 * PERIOD_US);
    assert_eq!(s.wakeup(), Wakeup::NextTick);
    assert_eq!(s.tick(), 48);
}

#[test]
fn step_fires_note_on_and_gated_note_off() {
    let mut s = Sequencer::new();
    s.toggle_step(0, 0); // track 0: nota 60, canal 0, gate 3 ticks
    s.play();
    let mut out = Vec::new();
    play_ticks(&mut s, 48, &mut out);
    let ns = notes(&out);
    assert_eq!(ns.len(), 2);
    assert_eq!(ns[0], (0, 0x90, 60, 100));
    // gate de 3 ticks
    assert_eq!(ns[1], (3 * PERIOD_US, 0x80, 60, 0));
}

#[test]
fn pattern_loops_every_16_steps() {
    let mut s = Sequencer::new();
    s.toggle_step(0, 0);
    s.play();
    let mut out = Vec::new();
    // 16 pasos × 6 ticks = 96 ticks por vuelta; dos vueltas
    play_ticks(&mut s, 192, &mut out);
    let ons: Vec<_> = notes(&out).into_iter().filter(|n| n.1 == 0x90).collect();
    assert_eq!(ons.len(), 2);
    assert_eq!(ons[1].0, 96 * PERIOD_US);
}

#[test]
fn stop_lets_current_step_finish_its_gate_before_cutting() {
    let mut s = Sequencer::new();
    s.toggle_step(0, 0);
    s.toggle_step(0, 1);
    s.play();
    let mut out = Vec::new();
    play_ticks(&mut s, 1, &mut out); // dispara el paso 0 (nota 60, gate 3 ticks)
    assert!(notes(&out).iter().any(|n| n.1 == 0x90));
    out.clear();
    s.stop(); // primer toque: no corta ya
    assert_eq!(s.transport(), Transport::Stopping);
    assert!(s.view_model().playing);
    let fired = run_ticks(&mut s, 1, 100, &mut out);
    // El corte llega con el note-off del tick 3, no antes ni después.
    assert_eq!(fired, 3);
    assert_eq!(out.last().unwrap().bytes[0], MIDI_STOP);
    assert_eq!(out.last().unwrap().at_us, 3 * PERIOD_US);
    let offs: Vec<_> = notes(&out).into_iter().filter(|n| n.1 == 0x80).collect();
    assert_eq!(offs.len(), 1);
    assert_eq!(offs[0].2, 60);
    // El paso 1 nunca dispara.
    assert!(!out.iter().any(|ev| ev.bytes[0] == 0x90));
    assert!(!s.view_model().playing);
    assert!(!s.tick_scheduled());
    assert_eq!(s.wakeup(), Wakeup::Idle);
}

#[test]
fn stop_without_sounding_notes_cuts_immediately() {
    let mut s = Sequencer::new();
    s.play();
    let mut out = Vec::new();
    play_ticks(&mut s, 2, &mut out);
    out.clear();
    s.stop();
    assert_eq!(s.transport(), Transport::Stopped);
    assert_eq!(s.wakeup(), Wakeup::Now);
    s.emit_pending_stop(5_000, &mut out);
    assert_eq!(out.len(), 1);
    assert_eq!(out[0].bytes[0], MIDI_STOP);
    assert_eq!(out[0].at_us, 5_000);
    assert!(!s.internal_clock_running());
}

#[test]
fn double_stop_forces_immediate_silence() {
    let mut s = Sequencer::new();
    s.pattern_mut().tracks[0].steps[0].on = true;
    s.pattern_mut().tracks[0].steps[0].gate_ticks = 255;
    s.play();
    let mut out = Vec::new();
    play_ticks(&mut s, 3, &mut out);
    assert!(notes(&out).iter().any(|n| n.1 == 0x90));
    out.clear();
    s.stop(); // primer toque: entra en modo "apagando"
    assert!(s.view_model().playing);
    s.stop(); // segundo toque: silencio general ya
    s.emit_pending_stop(60_000, &mut out);
    assert_eq!(out[0].bytes[0], MIDI_STOP);
    assert_eq!(out[0].at_us, 60_000);
    let offs: Vec<_> = notes(&out).into_iter().filter(|n| n.1 == 0x80).collect();
    assert_eq!(offs.len(), 1);
    assert_eq!(offs[0].2, 60);
    assert!(!s.view_model().playing);
}

#[test]
fn external_clock_follow_matches_internal_output() {
    let make = || {
        let mut s = Sequencer::new();
        s.toggle_step(0, 0);
        s.toggle_step(0, 8);
        s
    };
    let mut internal = make();
    internal.play();
    let mut out_i = Vec::new();
    play_ticks(&mut internal, 96, &mut out_i);
    let notes_i: Vec<_> = notes(&out_i).iter().map(|n| (n.1, n.2, n.3)).collect();

    let mut external = make();
    external.set_clock_source(ClockSource::External);
    let mut out_e = Vec::new();
    assert!(external.can_feed_byte(0xFA));
    external.feed_midi_in(&[0xFA], 0, &mut out_e);
    for i in 0..96u64 {
        external.feed_midi_in(&[0xF8], i * PERIOD_US, &mut out_e);
    }
    let notes_e: Vec<_> = notes(&out_e).iter().map(|n| (n.1, n.2, n.3)).collect();
    assert_eq!(notes_i, notes_e);
    assert!(!notes_e.is_empty());
    // Como esclavo no re-emite clock ni Start
    assert!(clocks(&out_e).is_empty());
    assert!(!out_e.iter().any(|e| e.bytes[0] == MIDI_START));
}

#[test]
fn external_stop_flushes_hanging_notes() {
    let mut s = Sequencer::new();
    s.pattern_mut().tracks[0].steps[0].on = true;
    s.pattern_mut().tracks[0].steps[0].gate_ticks = 255;
    s.set_clock_source(ClockSource::External);
    let mut out = Vec::new();
    s.feed_midi_in(&[0xFA, 0xF8], 0, &mut out);
    assert!(notes(&out).iter().any(|n| n.1 == 0x90));
    out.clear();
    s.feed_midi_in(&[0xFC], 1_000, &mut out);
    let offs: Vec<_> = notes(&out).into_iter().filter(|n| n.1 == 0x80).collect();
    assert_eq!(offs.len(), 1);
    assert_eq!(offs[0].0, 1_000);
    assert!(!s.view_model().playing);
}

#[test]
fn external_continue_resumes_without_rewinding() {
    let mut s = Sequencer::new();
    s.set_clock_source(ClockSource::External);
    let mut out = Vec::new();
    s.feed_midi_in(&[0xFA, 0xF8, 0xF8, 0xFC], 0, &mut out);
    assert_eq!(s.tick(), 2);
    s.feed_midi_in(&[0xFB, 0xF8], 10, &mut out);
    assert_eq!(s.tick(), 3);
    assert_eq!(s.transport(), Transport::Playing);
}

#[test]
fn midi_in_is_ignored_on_internal_clock() {
    let mut s = Sequencer::new();
    s.toggle_step(0, 0);
    let mut out = Vec::new();
    s.feed_midi_in(&[0xFA, 0xF8, 0xF8], 0, &mut out);
    assert!(out.is_empty());
    assert_eq!(s.transport(), Transport::Stopped);
    assert_eq!(s.tick(), 0);
}

#[test]
fn changing_clock_source_cuts_immediately() {
    let mut s = Sequencer::new();
    s.pattern_mut().tracks[0].steps[0].on = true;
    s.play();
    let mut out = Vec::new();
    play_ticks(&mut s, 1, &mut out);
    out.clear();
    s.set_clock_source(ClockSource::External);
    assert_eq!(s.clock_source(), ClockSource::External);
    assert_eq!(s.wakeup(), Wakeup::Now);
    s.emit_pending_stop(7, &mut out);
    // Al cortar todavía éramos master: primero el 0xFC, después la nota.
    assert_eq!(out.len(), 2);
    assert_eq!(out[0].bytes[0], MIDI_STOP);
    assert_eq!(out[0].at_us, 7);
    assert_eq!(notes(&out), vec![(7, 0x80, 60, 0)]);
    // Volver a la misma fuente no hace nada.
    s.set_clock_source(ClockSource::External);
    assert_eq!(s.wakeup(), Wakeup::Idle);
}

#[test]
fn leaving_external_clock_sends_no_transport_stop() {
    let mut s = Sequencer::new();
    s.pattern_mut().tracks[0].steps[0].on = true;
    s.set_clock_source(ClockSource::External);
    let mut out = Vec::new();
    s.feed_midi_in(&[0xFA, 0xF8], 0, &mut out);
    assert_eq!(notes(&out), vec![(0, 0x90, 60, 100)]);
    out.clear();
    s.set_clock_source(ClockSource::Internal);
    assert_eq!(s.transport(), Transport::Stopped);
    assert_eq!(s.wakeup(), Wakeup::Now);
    s.emit_pending_stop(5, &mut out);
    // Éramos esclavos al cortar: solo el note-off, sin 0xFC.
    assert_eq!(notes(&out), vec![(5, 0x80, 60, 0)]);
    assert!(!out.iter().any(|e| e.bytes[0] == MIDI_STOP));
    assert_eq!(s.wakeup(), Wakeup::Idle);
}

#[test]
fn input_events_drive_transport_and_selection() {
    let mut s = Sequencer::new();
    assert_eq!(s.handle_input(InputEvent::EncoderDelta(10)), Some(10));
    assert_eq!(s.handle_input(InputEvent::ButtonDown(Button::Play)), None);
    assert!(s.view_model().playing);
    s.handle_input(InputEvent::ButtonDown(Button::Step(3)));
    assert!(s.view_model().tracks[0].steps[3].on);
    s.handle_input(InputEvent::ButtonDown(Button::TrackSelect(2)));
    assert_eq!(s.view_model().selected_track, 2);
    s.handle_input(InputEvent::ButtonDown(Button::Step(4)));
    assert!(s.view_model().tracks[2].steps[4].on);
    // Un track inexistente no cambia la selección
    s.handle_input(InputEvent::ButtonDown(Button::TrackSelect(9)));
    assert_eq!(s.view_model().selected_track, 2);
    s.handle_input(InputEvent::ButtonUp(Button::Play));
    s.handle_input(InputEvent::ButtonDown(Button::Shift));
    assert!(s.view_model().playing);
    s.handle_input(InputEvent::ButtonDown(Button::Stop));
    assert!(!s.view_model().playing);
}

#[test]
fn track_channel_change_applies_to_emitted_notes() {
    let mut s = Sequencer::new();
    s.toggle_step(0, 0);
    s.set_track_channel(0, 4);
    s.play();
    let mut out = Vec::new();
    play_ticks(&mut s, 48, &mut out);
    let ns = notes(&out);
    assert_eq!(ns[0].1, 0x94);
    assert_eq!(ns[1].1, 0x84);
    s.set_track_channel(0, 200);
    assert_eq!(s.view_model().tracks[0].channel, 200 & 0x0F);
}

#[test]
fn single_channel_mode_routes_all_tracks_through_one_channel() {
    let mut s = Sequencer::new();
    s.toggle_step(0, 0);
    s.toggle_step(1, 0);
    s.set_track_channel(0, 2);
    s.set_track_channel(1, 5);
    s.set_channel_mode(ChannelMode::Single(7));
    assert_eq!(s.view_model().single_channel, Some(7));
    s.play();
    let mut out = Vec::new();
    play_ticks(&mut s, 1, &mut out);
    let ons: Vec<_> = notes(&out).into_iter().filter(|n| n.1 & 0xF0 == 0x90).collect();
    assert_eq!(ons.len(), 2);
    assert!(ons.iter().all(|n| n.1 == 0x97));
    let mut played: Vec<u8> = ons.iter().map(|n| n.2).collect();
    played.sort();
    assert_eq!(played, vec![60, 61]);

    s.set_channel_mode(ChannelMode::PerTrack);
    assert_eq!(s.view_model().single_channel, None);
    s.play();
    let mut out2 = Vec::new();
    play_ticks(&mut s, 1, &mut out2);
    let mut statuses: Vec<u8> = notes(&out2)
        .into_iter()
        .filter(|n| n.1 & 0xF0 == 0x90)
        .map(|n| n.1)
        .collect();
    statuses.sort();
    assert_eq!(statuses, vec![0x92, 0x95]);
    // El canal único se enmascara a 0-15
    s.set_channel_mode(ChannelMode::Single(0x1A));
    assert_eq!(s.view_model().single_channel, Some(0x0A));
}

#[test]
fn set_track_note_changes_emitted_note() {
    let mut s = Sequencer::new();
    s.toggle_step(0, 0);
    s.set_track_note(0, 49);
    s.play();
    let mut out = Vec::new();
    play_ticks(&mut s, 1, &mut out);
    assert_eq!(notes(&out)[0].2, 49);
    assert_eq!(s.view_model().tracks[0].note, 49);
    s.set_track_note(0, 200);
    assert_eq!(s.view_model().tracks[0].note, 200 & 0x7F);
    assert!(s.view_model().tracks[0].steps.iter().all(|st| st.note == 200 & 0x7F));
}

#[test]
fn euclidean_generates_classic_patterns() {
    let mut s = Sequencer::new();
    s.set_track_euclidean(0, 3, 8);
    let vm = s.view_model();
    assert_eq!(vm.tracks[0].steps.len(), 8);
    let hits: Vec<usize> = vm.tracks[0]
        .steps
        .iter()
        .enumerate()
        .filter(|(_, st)| st.on)
        .map(|(i, _)| i)
        .collect();
    assert_eq!(hits, vec![0, 3, 6]);
    let params = vm.tracks[0].euclidean.unwrap();
    assert_eq!((params.pulses, params.steps), (3, 8));

    s.set_track_euclidean(0, 5, 8);
    let hits: Vec<usize> = s.view_model().tracks[0]
        .steps
        .iter()
        .enumerate()
        .filter(|(_, st)| st.on)
        .map(|(i, _)| i)
        .collect();
    assert_eq!(hits, vec![0, 2, 4, 5, 7]);
}

#[test]
fn euclidean_track_plays_and_loops_at_its_own_length() {
    let mut s = Sequencer::new();
    s.set_track_euclidean(0, 3, 8);
    s.play();
    let mut out = Vec::new();
    // 8 pasos × 6 ticks = 48 ticks por vuelta; 2 vueltas
    play_ticks(&mut s, 96, &mut out);
    let ons: Vec<_> = notes(&out).into_iter().filter(|n| n.1 == 0x90).collect();
    assert_eq!(ons.len(), 6);
    assert_eq!(ons[3].0, 48 * PERIOD_US);
}

#[test]
fn euclidean_mode_ignores_manual_toggles_until_back_to_manual() {
    let mut s = Sequencer::new();
    s.set_track_euclidean(0, 3, 8);
    s.toggle_step(0, 1);
    assert!(!s.view_model().tracks[0].steps[1].on);
    s.set_track_manual(0);
    assert!(s.view_model().tracks[0].euclidean.is_none());
    assert_eq!(s.view_model().tracks[0].steps.len(), 16);
    s.toggle_step(0, 1);
    assert!(s.view_model().tracks[0].steps[1].on);
    assert!(s.view_model().tracks[0].steps[0].on);
}

#[test]
fn euclidean_params_are_clamped() {
    let mut s = Sequencer::new();
    s.set_track_euclidean(0, 9, 4);
    let params = s.view_model().tracks[0].euclidean.unwrap();
    assert_eq!((params.pulses, params.steps), (4, 4));
    s.set_track_euclidean(0, 1, 0);
    assert_eq!(s.view_model().tracks[0].euclidean.unwrap().steps, 1);
    s.set_track_euclidean(0, 70, 200);
    let params = s.view_model().tracks[0].euclidean.unwrap();
    assert_eq!((params.pulses, params.steps), (64, 64));
    assert_eq!(s.pattern().tracks[0].steps.len(), 64);
}

#[test]
fn muted_track_emits_nothing_until_unmuted() {
    let mut s = Sequencer::new();
    s.toggle_step(0, 0);
    s.toggle_track_mute(0);
    assert!(s.view_model().tracks[0].muted);
    s.play();
    let mut out = Vec::new();
    play_ticks(&mut s, 48, &mut out);
    assert!(notes(&out).is_empty());
    s.toggle_track_mute(0);
    assert!(!s.view_model().tracks[0].muted);
    out.clear();
    run_ticks(&mut s, 48, 96, &mut out);
    assert!(notes(&out).iter().any(|n| n.1 == 0x90));
}

#[test]
fn edits_on_missing_tracks_or_steps_change_nothing() {
    let mut s = Sequencer::new();
    s.toggle_step(9, 0);
    s.toggle_step(0, 99);
    s.set_track_euclidean(9, 3, 8);
    s.set_track_manual(9);
    s.toggle_track_mute(9);
    s.set_track_channel(9, 3);
    s.set_track_note(9, 3);
    let vm = s.view_model();
    assert_eq!(vm.tracks.len(), 5);
    assert!(vm.tracks.iter().all(|t| t.steps.iter().all(|st| !st.on)));
    assert!(vm.tracks.iter().all(|t| !t.muted && t.channel == 0));
}

#[test]
fn set_step_replaces_a_step() {
    let mut s = Sequencer::new();
    let st = obrero_core::Step { on: true, note: 40, velocity: 90, gate_ticks: 12 };
    s.set_step(1, 5, st);
    s.set_step(1, 50, st); // fuera de la grilla: ignorado
    assert_eq!(s.pattern().tracks[1].steps[5], st);
    s.play();
    let mut out = Vec::new();
    play_ticks(&mut s, 31, &mut out);
    let ns = notes(&out);
    assert_eq!(ns[0], (30 * PERIOD_US, 0x90, 40, 90));
}

#[test]
fn view_reports_current_step_per_track() {
    let mut s = Sequencer::new();
    s.set_track_euclidean(1, 2, 4);
    s.play();
    let mut out = Vec::new();
    // 7 pasos globales completos + 1 tick del paso 7
    play_ticks(&mut s, 43, &mut out);
    let vm = s.view_model();
    assert_eq!(vm.current_step, 7);
    assert_eq!(vm.tracks[0].current_step, 7);
    assert_eq!(vm.tracks[1].current_step, 7 % 4);
    s.stop();
    assert_eq!(s.view_model().current_step, 0);
}

#[test]
fn playing_again_restarts_from_the_first_tick() {
    let mut s = Sequencer::new();
    s.play();
    let mut out = Vec::new();
    play_ticks(&mut s, 10, &mut out);
    s.play();
    assert_eq!(s.tick(), 0);
    assert!(!s.tick_scheduled());
    assert_eq!(s.wakeup(), Wakeup::Now);
}

#[test]
fn timed_midi_data_is_the_valid_prefix() {
    let mut s = Sequencer::new();
    s.toggle_step(0, 0);
    s.play();
    let mut out = Vec::new();
    play_ticks(&mut s, 1, &mut out);
    assert_eq!(out[0].data(), &[MIDI_START]);
    assert_eq!(out[1].data(), &[MIDI_CLOCK]);
    assert_eq!(out[2].data(), &[0x90, 60, 100]);
}

#[test]
fn checked_feed_stops_before_a_clock_that_cannot_tick() {
    let mut s = Sequencer::new();
    s.pattern_mut().ticks_per_step = 0;
    let mut out = Vec::new();
    // Con reloj interno la entrada MIDI no mueve nada.
    assert!(s.can_feed_byte(0xF8));
    assert!(s.feed_midi_in_checked(&[0xF8], 0, &mut out));
    s.set_clock_source(ClockSource::External);
    s.emit_pending_stop(0, &mut out);
    assert!(out.is_empty());
    // 0xFA arranca en el tick 0, donde un 0xF8 dividiría por cero: se
    // procesa el 0xFA y se frena antes del 0xF8.
    assert!(!s.feed_midi_in_checked(&[0xFA, 0xF8, 0xFC], 0, &mut out));
    assert_eq!(s.transport(), Transport::Playing);
    assert_eq!(s.tick(), 0);
    assert!(!s.can_feed_byte(0xF8));
    assert!(s.can_feed_byte(0xFC));
    assert!(s.feed_midi_in_checked(&[0xFC], 0, &mut out));
    assert_eq!(s.transport(), Transport::Stopped);
    assert!(out.is_empty());
}

#[test]
fn a_step_outside_the_grid_blocks_only_its_own_tick() {
    let mut s = Sequencer::new();
    s.toggle_step(1, 0);
    s.pattern_mut().tracks[1].len = 99;
    assert!(!s.can_view());
    // Muteado, el track no se consulta: se puede tocar indefinidamente.
    s.toggle_track_mute(1);
    s.play();
    let mut out = Vec::new();
    assert_eq!(play_ticks(&mut s, 200, &mut out), 200);
    assert!(notes(&out).is_empty());
    // Sonando, los pasos 0..15 existen; el paso 16 (tick 96) no.
    s.toggle_track_mute(1);
    s.play();
    out.clear();
    assert_eq!(play_ticks(&mut s, 96, &mut out), 96);
    assert_eq!(notes(&out)[0], (0, 0x90, 61, 100));
    assert_eq!(s.tick(), 96);
    assert!(!s.can_tick());
    assert!(!s.pattern().events_defined_at(96));
    assert!(s.pattern().events_defined_at(97));
}

#[test]
fn every_note_on_gets_its_note_off() {
    let mut s = Sequencer::new();
    for (track, step, gate) in [(0usize, 0usize, 3u8), (1, 2, 40), (2, 5, 255), (3, 15, 7)] {
        let mut st = s.pattern().tracks[track].steps[step];
        st.on = true;
        st.gate_ticks = gate;
        s.set_step(track, step, st);
    }
    s.play();
    let mut out = Vec::new();
    play_ticks(&mut s, 200, &mut out);
    s.stop();
    run_ticks(&mut s, 200, 1000, &mut out);
    s.stop();
    s.emit_pending_stop(999_999_999, &mut out);
    let ons = notes(&out).iter().filter(|n| n.1 & 0xF0 == 0x90).count();
    let offs = notes(&out).iter().filter(|n| n.1 & 0xF0 == 0x80).count();
    assert!(ons > 0);
    assert_eq!(ons, offs);
    assert!(!s.view_model().playing);
}

#[test]
fn midi_in_chunking_does_not_matter() {
    let bytes = [0xFA, 0xF8, 0x90, 60, 0xF8, 100, 0xF8, 0xF8, 0xFC, 0xFB, 0xF8];
    let make = || {
        let mut s = Sequencer::new();
        s.toggle_step(0, 0);
        s.set_clock_source(ClockSource::External);
        s
    };
    let mut whole = make();
    let mut out_whole = Vec::new();
    whole.feed_midi_in(&bytes, 5, &mut out_whole);
    let mut chunked = make();
    let mut out_chunked = Vec::new();
    chunked.feed_midi_in(&bytes[..3], 5, &mut out_chunked);
    chunked.feed_midi_in(&bytes[3..7], 5, &mut out_chunked);
    chunked.feed_midi_in(&bytes[7..], 5, &mut out_chunked);
    assert_eq!(out_whole, out_chunked);
    assert_eq!(whole.tick(), chunked.tick());
    assert_eq!(whole.transport(), chunked.transport());
}

#[test]
fn toggling_a_step_twice_restores_it() {
    let mut s = Sequencer::new();
    let before = s.pattern().tracks[2].steps.clone();
    s.toggle_step(2, 7);
    assert!(s.pattern().tracks[2].steps[7].on);
    s.toggle_step(2, 7);
    assert_eq!(s.pattern().tracks[2].steps, before);
}
