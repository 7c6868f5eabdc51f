use obrero_core::encoder::{update_encoders_from_bits, Encoder, EncoderReport};

#[test]
fn rising_edges_count_turns() {
    let mut e = Encoder::new();
    assert_eq!(e.turns, 0);
    assert_eq!(e.step(true, false, false), Some((1, false)));
    // Mantener la línea no repite el giro
    assert_eq!(e.step(true, false, false), None);
    assert_eq!(e.step(false, false, false), None);
    assert_eq!(e.step(false, false, true), Some((0, false)));
    assert_eq!(e.step(false, false, true), None);
    assert_eq!(e.step(false, false, false), None);
    assert_eq!(e.step(false, false, true), Some((-1, false)));
    assert_eq!(e.turns, -1);
}

#[test]
fn button_alone_is_reported_every_cycle() {
    let mut e = Encoder::new();
    assert_eq!(e.step(false, true, false), Some((0, true)));
    assert_eq!(e.step(false, true, false), Some((0, true)));
}

#[test]
fn update_with_calls_back_on_edges_and_presses() {
    let mut e = Encoder::new();
    let mut calls = Vec::new();
    e.update_with(true, false, false, |t, b| calls.push((t, b)));
    e.update_with(true, false, false, |t, b| calls.push((t, b)));
    e.update_with(false, true, false, |t, b| calls.push((t, b)));
    assert_eq!(calls, vec![(1, false), (1, true)]);
    assert_eq!(e.turns, 1);
}

#[test]
fn bits_are_routed_to_each_encoder() {
    let mut encoders = vec![Encoder::new(), Encoder::new(), Encoder::new(), Encoder::new(), Encoder::new()];
    // enc1 CW (bit2), enc2 CCW (bit5), enc3 botón (bit9), enc4 CW (bit12)
    let bits = (1 << 2) | (1 << 5) | (1 << 9) | (1 << 12);
    let reports = update_encoders_from_bits(&mut encoders, bits);
    assert_eq!(
        reports,
        vec![
            EncoderReport { index: 0, turns: 1, pressed: false, cw: true, ccw: false },
            EncoderReport { index: 1, turns: -1, pressed: false, cw: false, ccw: true },
            EncoderReport { index: 3, turns: 1, pressed: false, cw: true, ccw: false },
        ]
    );
    assert_eq!(encoders[0].turns, 1);
    assert_eq!(encoders[1].turns, -1);
    assert_eq!(encoders[2].turns, 0);
    assert_eq!(encoders[3].turns, 1);
    // El quinto encoder no está en el layout
    assert_eq!(encoders[4].turns, 0);
    // Mismas líneas otra vez: nada nuevo
    assert!(update_encoders_from_bits(&mut encoders, bits).is_empty());
}

#[test]
fn fewer_encoders_than_the_layout() {
    let mut encoders = vec![Encoder::new()];
    let reports = update_encoders_from_bits(&mut encoders, 1 << 3);
    assert_eq!(reports, vec![EncoderReport { index: 0, turns: -1, pressed: false, cw: false, ccw: true }]);
}
