//! Encoders rotativos con botón central, leídos por dos 74HC165 en cadena.
//!
//! Cada IC aloja 2 encoders en pines B-G; pines A (IC pin 11) y H (IC pin 6)
//! sin conectar. Layout de pines por IC (A=bit0 ... H=bit7):
//!   bit0=A(NC) bit1=B(BTN) bit2=C(CW) bit3=D(CCW) bit4=E(CW) bit5=F(CCW)
//!   bit6=G(BTN) bit7=H(NC)
//!
//! Posiciones en el valor de 16 bits (bits = buf[1]<<8 | buf[0]):
//!   enc1 (chip1 B/C/D): CW=bit2,  CCW=bit3,  BTN=bit1
//!   enc2 (chip1 E/F/G): CW=bit4,  CCW=bit5,  BTN=bit6
//!   enc3 (chip2 B/C/D): CW=bit10, CCW=bit11, BTN=bit9
//!   enc4 (chip2 E/F/G): CW=bit12, CCW=bit13, BTN=bit14
use vstd::prelude::*;

verus! {

/// Si es `false`, los eventos de sólo-botón no se reportan (la rotación
/// siempre se reporta).
pub const DEBUG_BTN: bool = false;

pub struct Encoder {
    pub turns: i32,
    prev_cw: bool,
    prev_ccw: bool,
}

/// Estado abstracto de un encoder: vueltas acumuladas y las líneas del
/// ciclo anterior (para detectar flancos).
pub struct EncoderState {
    pub turns: i32,
    pub prev_cw: bool,
    pub prev_ccw: bool,
}

impl View for Encoder {
    type V = EncoderState;

    closed spec fn view(&self) -> EncoderState {
        EncoderState { turns: self.turns, prev_cw: self.prev_cw, prev_ccw: self.prev_ccw }
    }
}

/// Un ciclo de lectura: un flanco de subida en CW suma una vuelta, uno en
/// CCW la resta; si hubo flanco o el botón está pulsado se reporta
/// (vueltas, botón).
pub open spec fn encoder_step(s: EncoderState, cw: bool, btn: bool, ccw: bool) -> (
    EncoderState,
    Option<(i32, bool)>,
) {
    let cw_edge = cw && !s.prev_cw;
    let ccw_edge = ccw && !s.prev_ccw;
    let turns = (s.turns + (if cw_edge {
        1int
    } else {
        0int
    }) - (if ccw_edge {
        1int
    } else {
        0int
    })) as i32;
    (
        EncoderState { turns, prev_cw: cw, prev_ccw: ccw },
        if cw_edge || ccw_edge || btn {
            Some((turns, btn))
        } else {
            None
        },
    )
}

/// El contador de vueltas (i32) tiene lugar para el ciclo.
pub open spec fn can_step(s: EncoderState, cw: bool, ccw: bool) -> bool {
    let cw_edge = cw && !s.prev_cw;
    let ccw_edge = ccw && !s.prev_ccw;
    &&& cw_edge ==> s.turns < i32::MAX
    &&& ccw_edge ==> s.turns + (if cw_edge {
        1int
    } else {
        0int
    }) > i32::MIN
}

impl Encoder {
    pub fn new() -> (e: Self)
        ensures
            e@ == (EncoderState { turns: 0, prev_cw: false, prev_ccw: false }),
    {
        Encoder { turns: 0, prev_cw: false, prev_ccw: false }
    }

    /// ¿Tiene lugar el contador de vueltas para este ciclo? (ver `can_step`).
    pub fn can_step(&self, cw: bool, ccw: bool) -> (ok: bool)
        ensures
            ok == can_step(self@, cw, ccw),
    {
        let cw_edge = cw && !self.prev_cw;
        let ccw_edge = ccw && !self.prev_ccw;
        if cw_edge && self.turns == i32::MAX {
            return false;
        }
        if ccw_edge && !cw_edge && self.turns == i32::MIN {
            return false;
        }
        true
    }

    /// Actualiza el estado con los tres bits del ciclo actual y devuelve
    /// (vueltas, botón) si se detectó un flanco (giro) o el botón está
    /// pulsado.
    pub fn step(&mut self, cw: bool, btn: bool, ccw: bool) -> (report: Option<(i32, bool)>)
        requires
            can_step(old(self)@, cw, ccw),
        ensures
            (final(self)@, report) == encoder_step(old(self)@, cw, btn, ccw),
    {
        let cw_edge = cw && !self.prev_cw;
        let ccw_edge = ccw && !self.prev_ccw;
        if cw_edge {
            self.turns = self.turns + 1;
        }
        if ccw_edge {
            self.turns = self.turns - 1;
        }
        self.prev_cw = cw;
        self.prev_ccw = ccw;
        if cw_edge || ccw_edge || btn {
            Some((self.turns, btn))
        } else {
            None
        }
    }

    /// Actualiza el estado con los tres bits del ciclo actual y llama al
    /// callback si se detectó un flanco (giro o botón pulsado).
    ///
    /// `callback(turns: i32, btn: bool)`
    pub fn update_with<F: FnMut(i32, bool)>(&mut self, cw: bool, btn: bool, ccw: bool, mut callback: F)
        requires
            can_step(old(self)@, cw, ccw),
            encoder_step(old(self)@, cw, btn, ccw).1 matches Some(args) ==> call_requires(
                callback,
                args,
            ),
        ensures
            final(self)@ == encoder_step(old(self)@, cw, btn, ccw).0,
            encoder_step(old(self)@, cw, btn, ccw).1 matches Some(args) ==> call_ensures(
                callback,
                args,
                (),
            ),
    {
        if let Some((turns, pressed)) = self.step(cw, btn, ccw) {
            callback(turns, pressed);
        }
    }
}

/// Qué reporta un ciclo de lectura de un encoder (para imprimir).
#[derive(Clone, Copy, Debug, PartialEq, Eq)]
pub struct EncoderReport {
    /// Índice del encoder (0 = enc1).
    pub index: usize,
    pub turns: i32,
    pub pressed: bool,
    pub cw: bool,
    pub ccw: bool,
}

/// Bits (CW, CCW, BTN) del encoder `i` en el valor de 16 bits.
pub open spec fn layout_bits(i: int) -> (u32, u32, u32) {
    if i == 0 {
        (2, 3, 1)
    } else if i == 1 {
        (4, 5, 6)
    } else if i == 2 {
        (10, 11, 9)
    } else {
        (12, 13, 14)
    }
}

fn layout(i: usize) -> (b: (u32, u32, u32))
    requires
        i < 4,
    ensures
        b == layout_bits(i as int),
{
    if i == 0 {
        (2, 3, 1)  // enc1: chip1 C(CW)/D(CCW)/B(BTN)
    } else if i == 1 {
        (4, 5, 6)  // enc2: chip1 E(CW)/F(CCW)/G(BTN)
    } else if i == 2 {
        (10, 11, 9)  // enc3: chip2 C(CW)/D(CCW)/B(BTN)
    } else {
        (12, 13, 14)  // enc4: chip2 E(CW)/F(CCW)/G(BTN)
    }
}

pub open spec fn bit(bits: u32, n: u32) -> bool {
    (bits >> n) & 1 == 1
}

/// Lo que se reporta del encoder `i` en un ciclo: los giros siempre, los
/// eventos de sólo-botón solo con DEBUG_BTN.
pub open spec fn report_of(i: int, r: Option<(i32, bool)>, cw: bool, ccw: bool) -> Seq<EncoderReport> {
    match r {
        Some((turns, pressed)) => if !pressed || DEBUG_BTN {
            seq![EncoderReport { index: i as usize, turns, pressed, cw, ccw }]
        } else {
            Seq::empty()
        },
        None => Seq::empty(),
    }
}

/// Encoders actualizados y reportes de los primeros `k` encoders.
pub open spec fn encoders_updated(
    before: Seq<EncoderState>,
    bits: u32,
    k: nat,
) -> (Seq<EncoderState>, Seq<EncoderReport>)
    decreases k,
{
    if k == 0 {
        (before, Seq::empty())
    } else {
        let (states, reports) = encoders_updated(before, bits, (k - 1) as nat);
        let i = k - 1;
        let (cw_bit, ccw_bit, btn_bit) = layout_bits(i);
        let cw = bit(bits, cw_bit);
        let ccw = bit(bits, ccw_bit);
        let (s, r) = encoder_step(states[i], cw, bit(bits, btn_bit), ccw);
        (states.update(i, s), reports + report_of(i, r, cw, ccw))
    }
}

/// Cuántos encoders se actualizan: los del layout (4) que estén presentes.
pub open spec fn encoders_read(n: nat) -> nat {
    if n < 4 {
        n
    } else {
        4
    }
}

/// Los contadores de todos los encoders tienen lugar para un ciclo.
pub open spec fn encoders_can_step(es: Seq<EncoderState>, bits: u32) -> bool {
    forall|i: int|
        0 <= i < encoders_read(es.len()) ==> {
            let (cw_bit, ccw_bit, btn_bit) = layout_bits(i);
            can_step(#[trigger] es[i], bit(bits, cw_bit), bit(bits, ccw_bit))
        }
}

pub open spec fn views(es: Seq<Encoder>) -> Seq<EncoderState> {
    es.map_values(|e: Encoder| e@)
}

/// Actualiza los encoders desde el valor de 16 bits leído por SPI
/// (2× 74HC165) y devuelve lo que hay que reportar. Llamar en cada ciclo de
/// lectura; internamente detecta flancos con el estado previo.
pub fn update_encoders_from_bits(encoders: &mut [Encoder], bits: u32) -> (reports: Vec<EncoderReport>)
    requires
        encoders_can_step(views(old(encoders)@), bits),
    ensures
        (views(final(encoders)@), reports@) == encoders_updated(
            views(old(encoders)@),
            bits,
            encoders_read(old(encoders)@.len()),
        ),
{
    let ghost before = views(encoders@);
    let n: usize = if encoders.len() < 4 {
        encoders.len()
    } else {
        4
    };
    let mut reports: Vec<EncoderReport> = Vec::new();
    let mut i: usize = 0;
    while i < n
        invariant
            n == encoders_read(before.len()),
            i <= n,
            n <= encoders@.len(),
            encoders@.len() == before.len(),
            encoders_can_step(before, bits),
            (views(encoders@), reports@) == encoders_updated(before, bits, i as nat),
            forall|j: int| i <= j < before.len() ==> encoders@[j]@ == before[j],
        decreases n - i,
    {
        let (cw_bit, ccw_bit, btn_bit) = layout(i);
        let cw = (bits >> cw_bit) & 1 == 1;
        let ccw = (bits >> ccw_bit) & 1 == 1;
        let btn = (bits >> btn_bit) & 1 == 1;
        let ghost prev = encoders@;
        assert(can_step(before[i as int], cw, ccw));
        assert(encoders@[i as int]@ == before[i as int]);
        let r = encoders[i].step(cw, btn, ccw);
        if let Some((turns, pressed)) = r {
            if !pressed || DEBUG_BTN {
                reports.push(EncoderReport { index: i, turns, pressed, cw, ccw });
            }
        }
        proof {
            assert(views(encoders@) =~= views(prev).update(i as int, encoders@[i as int]@));
        }
        i = i + 1;
        assert(reports@ =~= encoders_updated(before, bits, i as nat).1);
    }
    reports
}

/// ¿Tienen lugar los contadores de todos los encoders para este ciclo?
/// (ver `encoders_can_step`).
pub fn can_update_encoders(encoders: &[Encoder], bits: u32) -> (ok: bool)
    ensures
        ok == encoders_can_step(views(encoders@), bits),
{
    let n: usize = if encoders.len() < 4 {
        encoders.len()
    } else {
        4
    };
    let mut i: usize = 0;
    while i < n
        invariant
            n == encoders_read(encoders@.len()),
            i <= n,
            forall|j: int|
                0 <= j < i ==> {
                    let (cw_bit, ccw_bit, btn_bit) = layout_bits(j);
                    can_step(#[trigger] views(encoders@)[j], bit(bits, cw_bit), bit(bits, ccw_bit))
                },
        decreases n - i,
    {
        let (cw_bit, ccw_bit, _btn_bit) = layout(i);
        let cw = (bits >> cw_bit) & 1 == 1;
        let ccw = (bits >> ccw_bit) & 1 == 1;
        if !encoders[i].can_step(cw, ccw) {
            assert(views(encoders@)[i as int] == encoders@[i as int]@);
            return false;
        }
        assert(views(encoders@)[i as int] == encoders@[i as int]@);
        i = i + 1;
    }
    true
}

// ── Leyes ────────────────────────────────────────────────────────────────

/// Mantener el encoder en la misma posición no repite el giro: tras un
/// ciclo, otro ciclo con las mismas líneas (y el botón suelto) no cambia
/// nada ni reporta.
pub proof fn law_held_position_does_not_repeat(s: EncoderState, cw: bool, btn: bool, ccw: bool)
    ensures
        ({
            let s1 = encoder_step(s, cw, btn, ccw).0;
            encoder_step(s1, cw, false, ccw) == (s1, None::<(i32, bool)>)
        }),
{
}

/// Lo que un ciclo reporta del encoder `i` con las líneas (cw, btn, ccw).
pub open spec fn cycle_report(i: int, s: EncoderState, cw: bool, btn: bool, ccw: bool) -> Seq<
    EncoderReport,
> {
    report_of(i, encoder_step(s, cw, btn, ccw).1, cw, ccw)
}

/// Cada encoder lee sus líneas de los bits documentados del valor de 16
/// bits (bits = buf[1]<<8 | buf[0]): enc1 CW=bit2, CCW=bit3, BTN=bit1; enc2
/// CW=bit4, CCW=bit5, BTN=bit6; enc3 CW=bit10, CCW=bit11, BTN=bit9; enc4
/// CW=bit12, CCW=bit13, BTN=bit14. Un ciclo con cuatro o más encoders
/// actualiza los cuatro con esas líneas, deja el resto igual y reporta, en
/// orden de encoder, lo que cada uno reporta.
pub proof fn law_encoders_read_the_documented_bits(es: Seq<EncoderState>, bits: u32)
    requires
        es.len() >= 4,
    ensures
        ({
            let (ns, reps) = encoders_updated(es, bits, 4);
            let c0 = (bits >> 2u32) & 1 == 1;
            let w0 = (bits >> 3u32) & 1 == 1;
            let b0 = (bits >> 1u32) & 1 == 1;
            let c1 = (bits >> 4u32) & 1 == 1;
            let w1 = (bits >> 5u32) & 1 == 1;
            let b1 = (bits >> 6u32) & 1 == 1;
            let c2 = (bits >> 10u32) & 1 == 1;
            let w2 = (bits >> 11u32) & 1 == 1;
            let b2 = (bits >> 9u32) & 1 == 1;
            let c3 = (bits >> 12u32) & 1 == 1;
            let w3 = (bits >> 13u32) & 1 == 1;
            let b3 = (bits >> 14u32) & 1 == 1;
            &&& ns.len() == es.len()
            &&& ns[0] == encoder_step(es[0], c0, b0, w0).0
            &&& ns[1] == encoder_step(es[1], c1, b1, w1).0
            &&& ns[2] == encoder_step(es[2], c2, b2, w2).0
            &&& ns[3] == encoder_step(es[3], c3, b3, w3).0
            &&& forall|j: int| 4 <= j < es.len() ==> ns[j] == es[j]
            &&& reps == cycle_report(0, es[0], c0, b0, w0) + cycle_report(1, es[1], c1, b1, w1)
                + cycle_report(2, es[2], c2, b2, w2) + cycle_report(3, es[3], c3, b3, w3)
        }),
{
    reveal_with_fuel(encoders_updated, 5);
    let (s1, r1) = encoders_updated(es, bits, 1);
    let (s2, r2) = encoders_updated(es, bits, 2);
    let (s3, r3) = encoders_updated(es, bits, 3);
    let (s4, r4) = encoders_updated(es, bits, 4);
    assert(s1[0] == encoder_step(es[0], bit(bits, 2), bit(bits, 1), bit(bits, 3)).0);
    assert(s2[1] == encoder_step(es[1], bit(bits, 4), bit(bits, 6), bit(bits, 5)).0);
    assert(s3[2] == encoder_step(es[2], bit(bits, 10), bit(bits, 9), bit(bits, 11)).0);
    assert(s4[3] == encoder_step(es[3], bit(bits, 12), bit(bits, 14), bit(bits, 13)).0);
    assert(r1 =~= Seq::<EncoderReport>::empty() + cycle_report(
        0,
        es[0],
        bit(bits, 2),
        bit(bits, 1),
        bit(bits, 3),
    ));
    assert(r4 =~= cycle_report(0, es[0], bit(bits, 2), bit(bits, 1), bit(bits, 3)) + cycle_report(
        1,
        es[1],
        bit(bits, 4),
        bit(bits, 6),
        bit(bits, 5),
    ) + cycle_report(2, es[2], bit(bits, 10), bit(bits, 9), bit(bits, 11)) + cycle_report(
        3,
        es[3],
        bit(bits, 12),
        bit(bits, 14),
        bit(bits, 13),
    ));
}

/// Un ciclo sigue las reglas del encoder: las vueltas cambian en +1 por un
/// flanco de subida en CW y en -1 por uno en CCW (una línea que se mantiene
/// o que baja no cuenta); las líneas quedan recordadas para el próximo
/// ciclo; se reporta (vueltas nuevas, botón) si y solo si hubo un flanco o
/// el botón está pulsado.
pub proof fn law_encoder_cycle(s: EncoderState, cw: bool, btn: bool, ccw: bool)
    requires
        can_step(s, cw, ccw),
    ensures
        ({
            let (s1, r) = encoder_step(s, cw, btn, ccw);
            let up: int = if cw && !s.prev_cw {
                1
            } else {
                0
            };
            let down: int = if ccw && !s.prev_ccw {
                1
            } else {
                0
            };
            &&& s1.turns == s.turns + up - down
            &&& s1.prev_cw == cw
            &&& s1.prev_ccw == ccw
            &&& (r is Some) == (up == 1 || down == 1 || btn)
            &&& r matches Some(x) ==> x == (s1.turns, btn)
        }),
{
}

/// Un ciclo imprime solo los giros: si el botón está pulsado no se reporta
/// nada (los eventos de sólo-botón quedan ocultos); si no, se reporta un
/// único registro con el índice del encoder, las vueltas nuevas y las
/// líneas leídas exactamente cuando hubo un flanco.
pub proof fn law_cycle_reports_only_turns(i: int, s: EncoderState, cw: bool, btn: bool, ccw: bool)
    requires
        0 <= i < 4,
        can_step(s, cw, ccw),
    ensures
        ({
            let reps = cycle_report(i, s, cw, btn, ccw);
            let turned = (cw && !s.prev_cw) || (ccw && !s.prev_ccw);
            &&& btn ==> reps.len() == 0
            &&& !btn && !turned ==> reps.len() == 0
            &&& !btn && turned ==> reps == seq![
                EncoderReport {
                    index: i as usize,
                    turns: encoder_step(s, cw, btn, ccw).0.turns,
                    pressed: false,
                    cw,
                    ccw,
                },
            ]
        }),
{
}

/// Un flanco de subida en CW (sin CCW) suma exactamente una vuelta y se
/// reporta; en CCW (sin CW) resta una.
pub proof fn law_one_detent_one_turn(s: EncoderState, btn: bool)
    requires
        !s.prev_cw,
        !s.prev_ccw,
        s.turns < i32::MAX,
        s.turns > i32::MIN,
    ensures
        encoder_step(s, true, btn, false).0.turns == s.turns + 1,
        encoder_step(s, true, btn, false).1 == Some(((s.turns + 1) as i32, btn)),
        encoder_step(s, false, btn, true).0.turns == s.turns - 1,
        encoder_step(s, false, btn, true).1 == Some(((s.turns - 1) as i32, btn)),
{
}

} // verus!
