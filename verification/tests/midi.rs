use obrero_core::midi::{format_midi_msg, MidiParser};

fn parse_all(bytes: &[u8]) -> Vec<(u8, u8, u8)> {
    let mut p = MidiParser::new();
    bytes.iter().filter_map(|&b| p.feed(b)).collect()
}

#[test]
fn note_on_three_bytes() {
    assert_eq!(parse_all(&[0x90, 60, 100]), vec![(0x90, 60, 100)]);
}

#[test]
fn running_status_two_byte_messages() {
    // Note On ch1 + dos mensajes más sin repetir el status
    let msgs = parse_all(&[0x90, 60, 100, 62, 101, 64, 102]);
    assert_eq!(
        msgs,
        vec![(0x90, 60, 100), (0x90, 62, 101), (0x90, 64, 102)]
    );
}

#[test]
fn running_status_one_data_byte() {
    // Program Change usa 1 byte de dato
    let msgs = parse_all(&[0xC3, 10, 11]);
    assert_eq!(msgs, vec![(0xC3, 10, 0), (0xC3, 11, 0)]);
}

#[test]
fn realtime_byte_does_not_break_running_status() {
    // 0xF8 (Clock) intercalado en medio de un Note On
    let msgs = parse_all(&[0x90, 60, 0xF8, 100]);
    assert_eq!(msgs, vec![(0xF8, 0, 0), (0x90, 60, 100)]);
}

#[test]
fn stray_data_bytes_discarded() {
    assert_eq!(parse_all(&[42, 43, 44]), vec![]);
}

#[test]
fn new_status_resets_partial_message() {
    // Note On incompleto interrumpido por otro Note On
    let msgs = parse_all(&[0x90, 60, 0x91, 70, 90]);
    assert_eq!(msgs, vec![(0x91, 70, 90)]);
}

#[test]
fn system_common_messages() {
    // Song Position (2 datos), Song Select (1 dato), Tune Request (0 datos)
    let msgs = parse_all(&[0xF2, 0x01, 0x02, 0xF3, 5, 0xF6]);
    assert_eq!(msgs, vec![(0xF2, 0x01, 0x02), (0xF3, 5, 0), (0xF6, 0, 0)]);
}

#[test]
fn transport_realtime_bytes() {
    let msgs = parse_all(&[0xFA, 0xF8, 0xFC, 0xFB]);
    assert_eq!(
        msgs,
        vec![(0xFA, 0, 0), (0xF8, 0, 0), (0xFC, 0, 0), (0xFB, 0, 0)]
    );
}

#[test]
fn default_parser_starts_idle() {
    let mut p = MidiParser::default();
    assert_eq!(p.feed(10), None);
    assert_eq!(p.feed(0xB0), None);
    assert_eq!(p.feed(7), None);
    assert_eq!(p.feed(127), Some((0xB0, 7, 127)));
}

#[test]
fn running_status_survives_realtime_between_data_pairs() {
    let msgs = parse_all(&[0x92, 1, 2, 0xFE, 3, 4]);
    assert_eq!(msgs, vec![(0x92, 1, 2), (0xFE, 0, 0), (0x92, 3, 4)]);
}

#[test]
fn pitch_bend_uses_two_data_bytes() {
    let msgs = parse_all(&[0xE1, 0, 64, 5, 6]);
    assert_eq!(msgs, vec![(0xE1, 0, 64), (0xE1, 5, 6)]);
}

#[test]
fn format_note_messages() {
    assert_eq!(
        format_midi_msg(0x80, 60, 0),
        format!("Note Off    ch={:2} note={:3} vel={:3}", 1, 60, 0)
    );
    assert_eq!(format_midi_msg(0x90, 60, 100), "Note On     ch= 1 note= 60 vel=100");
    assert_eq!(
        format_midi_msg(0x9F, 7, 0),
        "Note Off    ch=16 note=  7 (vel=0 via running status)"
    );
    assert_eq!(format_midi_msg(0xA2, 1, 2), "Aftertouch  ch= 3 note=  1 val=  2");
    assert_eq!(format_midi_msg(0xB0, 7, 127), "CC          ch= 1 cc=  7  val=127");
}

#[test]
fn format_one_data_messages() {
    assert_eq!(format_midi_msg(0xC3, 10, 0), "ProgChange  ch= 4 prog= 10");
    assert_eq!(format_midi_msg(0xD9, 99, 0), "ChanPress   ch=10 val= 99");
}

#[test]
fn format_pitch_bend_is_signed_and_centered() {
    assert_eq!(format_midi_msg(0xE0, 0, 64), "PitchBend   ch= 1 val=     0");
    assert_eq!(format_midi_msg(0xE0, 0, 0), "PitchBend   ch= 1 val= -8192");
    assert_eq!(format_midi_msg(0xE0, 127, 127), "PitchBend   ch= 1 val=  8191");
    // d1 con el bit alto se superpone al bit 7 de d2 << 7 (OR, no suma)
    assert_eq!(format_midi_msg(0xE0, 0xFF, 0), format!("PitchBend   ch= 1 val={:6}", 255 - 8192));
}

#[test]
fn format_system_messages() {
    assert_eq!(format_midi_msg(0xF0, 0, 0), "SysEx Start");
    assert_eq!(format_midi_msg(0xF1, 33, 0), "MTC Quarter Frame  val=33");
    assert_eq!(format_midi_msg(0xF2, 1, 2), "Song Pos           lsb=1 msb=2");
    assert_eq!(format_midi_msg(0xF3, 5, 0), "Song Select        song=5");
    assert_eq!(format_midi_msg(0xF6, 0, 0), "Tune Request");
    assert_eq!(format_midi_msg(0xF7, 0, 0), "SysEx End");
    assert_eq!(format_midi_msg(0xF8, 0, 0), "Clock");
    assert_eq!(format_midi_msg(0xFA, 0, 0), "Start");
    assert_eq!(format_midi_msg(0xFB, 0, 0), "Continue");
    assert_eq!(format_midi_msg(0xFC, 0, 0), "Stop");
    assert_eq!(format_midi_msg(0xFE, 0, 0), "Active Sense");
    assert_eq!(format_midi_msg(0xFF, 0, 0), "Reset");
    assert_eq!(format_midi_msg(0xF4, 0, 0), "SysCommon 0xF4");
}

#[test]
fn format_unknown_status_in_hex() {
    assert_eq!(format_midi_msg(0x12, 0xAB, 0x0C), "Unknown 0x12 AB 0C");
}

#[test]
fn parse_chunking_does_not_matter() {
    let bytes = [0x90, 60, 100, 0xF8, 62, 101, 0xC0, 5, 6, 7];
    let whole = parse_all(&bytes);
    let mut p = MidiParser::new();
    let mut chunked = Vec::new();
    for chunk in bytes.chunks(3) {
        chunked.extend(chunk.iter().filter_map(|&b| p.feed(b)));
    }
    assert_eq!(whole, chunked);
    assert_eq!(whole.len(), 6);
}
