//! Parser MIDI byte a byte (con running status) y formateo legible de
//! mensajes.
use vstd::prelude::*;

use crate::text::{
    append_dec_padded, append_hex2, append_int_padded, dec_str, hex2, int_str, pad_left,
};

verus! {

/// Estado del parser entre bytes.
#[derive(Clone, Copy, Debug, PartialEq, Eq)]
pub enum ParseState {
    Idle,
    Data1 { status: u8 },
    Data2 { status: u8, d1: u8 },
}

pub struct MidiParser {
    state: ParseState,
}

/// Cantidad de bytes de datos que siguen a un byte de status.
pub open spec fn data_len(status: u8) -> u8 {
    let hi = status & 0xF0;
    if hi == 0x80 || hi == 0x90 || hi == 0xA0 || hi == 0xB0 || hi == 0xE0 {
        2
    } else if hi == 0xC0 || hi == 0xD0 {
        1
    } else if hi == 0xF0 {
        if status == 0xF1 || status == 0xF3 {
            1
        } else if status == 0xF2 {
            2
        } else {
            0
        }
    } else {
        0
    }
}

/// Un mensaje completo: (status, dato 1, dato 2); los datos que el
/// mensaje no lleva valen 0.
pub type MidiMsg = (u8, u8, u8);

/// Transición del parser al recibir `byte`: nuevo estado y, si se completó
/// un mensaje, el mensaje.
pub open spec fn parse_step(s: ParseState, byte: u8) -> (ParseState, Option<MidiMsg>) {
    if byte >= 0x80 {
        if byte >= 0xF8 {
            // System Real-Time: un byte, no toca el running status.
            (s, Some((byte, 0, 0)))
        } else if data_len(byte) == 0 {
            (ParseState::Idle, Some((byte, 0, 0)))
        } else {
            (ParseState::Data1 { status: byte }, None)
        }
    } else {
        match s {
            ParseState::Data1 { status } => if data_len(status) == 1 {
                (s, Some((status, byte, 0)))
            } else {
                (ParseState::Data2 { status, d1: byte }, None)
            },
            ParseState::Data2 { status, d1 } => (
                ParseState::Data1 { status },
                Some((status, d1, byte)),
            ),
            ParseState::Idle => (ParseState::Idle, None),
        }
    }
}

/// Estado final y mensajes emitidos al alimentar `bytes` en orden.
pub open spec fn parse_bytes(s: ParseState, bytes: Seq<u8>) -> (ParseState, Seq<MidiMsg>)
    decreases bytes.len(),
{
    if bytes.len() == 0 {
        (s, seq![])
    } else {
        let (s1, msgs) = parse_bytes(s, bytes.drop_last());
        let (s2, m) = parse_step(s1, bytes.last());
        (s2, match m {
            Some(msg) => msgs.push(msg),
            None => msgs,
        })
    }
}

/// Un estado alcanzable: el status guardado es un status de canal o de
/// sistema común (nunca Real-Time) y el dato guardado es un byte de dato.
pub open spec fn parse_state_wf(s: ParseState) -> bool {
    match s {
        ParseState::Idle => true,
        ParseState::Data1 { status } => 0x80 <= status < 0xF8 && data_len(status) != 0,
        ParseState::Data2 { status, d1 } => 0x80 <= status < 0xF8 && data_len(status) == 2
            && d1 < 0x80,
    }
}

impl View for MidiParser {
    type V = ParseState;

    closed spec fn view(&self) -> ParseState {
        self.state
    }
}

impl MidiParser {
    #[verifier::type_invariant]
    pub(crate) closed spec fn state_wf(self) -> bool {
        parse_state_wf(self.state)
    }

    pub fn new() -> (p: Self)
        ensures
            p@ == ParseState::Idle,
            parse_state_wf(p@),
    {
        MidiParser { state: ParseState::Idle }
    }

    /// Qué devolvería `feed(byte)`, sin consumir el byte.
    pub fn peek(&self, byte: u8) -> (r: Option<MidiMsg>)
        ensures
            r == parse_step(self@, byte).1,
    {
        proof {
            use_type_invariant(self);
        }
        let mut p = MidiParser { state: self.state };
        p.feed(byte)
    }

    /// Alimenta un byte crudo. Devuelve Some((status, d1, d2)) cuando hay un
    /// mensaje completo.
    pub fn feed(&mut self, byte: u8) -> (r: Option<MidiMsg>)
        ensures
            (final(self)@, r) == parse_step(old(self)@, byte),
            parse_state_wf(final(self)@),
    {
        proof {
            use_type_invariant(&*self);
        }
        assert((byte & 0x80 != 0) == (byte >= 0x80)) by (bit_vector);
        if byte & 0x80 != 0 {
            if byte >= 0xF8 {
                return Some((byte, 0, 0));
            }
            let n = data_bytes_for(byte);
            if n == 0 {
                self.state = ParseState::Idle;
                return Some((byte, 0, 0));
            } else {
                self.state = ParseState::Data1 { status: byte };
            }
        } else {
            match self.state {
                ParseState::Data1 { status } => {
                    if data_bytes_for(status) == 1 {
                        return Some((status, byte, 0));
                    } else {
                        self.state = ParseState::Data2 { status, d1: byte };
                    }
                },
                ParseState::Data2 { status, d1 } => {
                    self.state = ParseState::Data1 { status };
                    return Some((status, d1, byte));
                },
                ParseState::Idle => {},
            }
        }
        None
    }
}

fn data_bytes_for(status: u8) -> (n: u8)
    ensures
        n == data_len(status),
{
    let hi = status & 0xF0;
    if hi == 0x80 || hi == 0x90 || hi == 0xA0 || hi == 0xB0 || hi == 0xE0 {
        2
    } else if hi == 0xC0 || hi == 0xD0 {
        1
    } else if hi == 0xF0 {
        if status == 0xF1 || status == 0xF3 {
            1
        } else if status == 0xF2 {
            2
        } else {
            0
        }
    } else {
        0
    }
}

impl Default for MidiParser {
    fn default() -> (p: Self)
        ensures
            p@ == ParseState::Idle,
    {
        Self::new()
    }
}

// ── Leyes del parser ─────────────────────────────────────────────────────

/// Un byte Real-Time (0xF8–0xFF) sale solo, en cualquier estado, y deja el
/// estado (y con él el running status) intacto.
pub proof fn law_realtime_is_transparent(s: ParseState, byte: u8)
    requires
        byte >= 0xF8,
    ensures
        parse_step(s, byte) == (s, Some((byte, 0u8, 0u8))),
{
}

/// Sin status previo, un byte de dato se descarta.
pub proof fn law_stray_data_discarded(byte: u8)
    requires
        byte < 0x80,
    ensures
        parse_step(ParseState::Idle, byte) == (ParseState::Idle, None::<MidiMsg>),
{
}

/// Un byte de status que no es Real-Time descarta cualquier mensaje a medio
/// armar: el estado resultante no depende del estado previo.
pub proof fn law_status_resets_partial_message(s1: ParseState, s2: ParseState, byte: u8)
    requires
        0x80 <= byte < 0xF8,
    ensures
        parse_step(s1, byte) == parse_step(s2, byte),
{
}

/// Running status con dos datos: tras un status de dos datos, cada par de
/// bytes de datos produce un mensaje con ese mismo status, y el parser queda
/// listo para el próximo par.
pub proof fn law_running_status_two_data(status: u8, a: u8, b: u8)
    requires
        0x80 <= status < 0xF8,
        data_len(status) == 2,
        a < 0x80,
        b < 0x80,
    ensures
        parse_bytes(ParseState::Data1 { status }, seq![a, b]) == (
            ParseState::Data1 { status },
            seq![(status, a, b)],
        ),
{
    let s = ParseState::Data1 { status };
    let e = Seq::<MidiMsg>::empty();
    assert(seq![a].drop_last() =~= Seq::<u8>::empty());
    assert(parse_bytes(s, Seq::<u8>::empty()) == (s, e));
    assert(parse_bytes(s, seq![a]) == (ParseState::Data2 { status, d1: a }, e));
    assert(seq![a, b].drop_last() =~= seq![a]);
    assert(e.push((status, a, b)) =~= seq![(status, a, b)]);
}

/// Running status con un dato: cada byte de dato produce un mensaje con el
/// mismo status y el estado no cambia.
pub proof fn law_running_status_one_data(status: u8, a: u8)
    requires
        0x80 <= status < 0xF8,
        data_len(status) == 1,
        a < 0x80,
    ensures
        parse_step(ParseState::Data1 { status }, a) == (
            ParseState::Data1 { status },
            Some((status, a, 0u8)),
        ),
{
}

/// Un mensaje completo de dos datos se arma desde cualquier estado: status
/// seguido de dos datos.
pub proof fn law_full_message_from_any_state(s: ParseState, status: u8, a: u8, b: u8)
    requires
        0x80 <= status < 0xF8,
        data_len(status) == 2,
        a < 0x80,
        b < 0x80,
    ensures
        parse_bytes(s, seq![status, a, b]) == (
            ParseState::Data1 { status },
            seq![(status, a, b)],
        ),
{
    let e = Seq::<MidiMsg>::empty();
    assert(seq![status].drop_last() =~= Seq::<u8>::empty());
    assert(parse_bytes(s, Seq::<u8>::empty()) == (s, e));
    assert(parse_bytes(s, seq![status]) == (ParseState::Data1 { status }, e));
    assert(seq![status, a].drop_last() =~= seq![status]);
    assert(parse_bytes(s, seq![status, a]) == (ParseState::Data2 { status, d1: a }, e));
    assert(seq![status, a, b].drop_last() =~= seq![status, a]);
    assert(e.push((status, a, b)) =~= seq![(status, a, b)]);
}

/// Cuántos datos lleva cada mensaje, según la tabla de MIDI: los de canal
/// 0x8n (Note Off), 0x9n (Note On), 0xAn (Aftertouch), 0xBn (Control
/// Change) y 0xEn (Pitch Bend), y 0xF2 (Song Position), llevan dos; 0xCn
/// (Program Change), 0xDn (Channel Pressure), 0xF1 y 0xF3, uno; el resto de
/// los de sistema común (0xF0, 0xF4-0xF7), ninguno. Desde cualquier estado,
/// el status seguido de sus datos arma exactamente un mensaje, y el parser
/// queda esperando más datos del mismo status (running status), salvo los
/// que no llevan datos, que salen solos y lo dejan en reposo.
pub proof fn law_message_lengths_follow_the_midi_table(s: ParseState, status: u8, a: u8, b: u8)
    requires
        0x80 <= status < 0xF8,
        a < 0x80,
        b < 0x80,
    ensures
        ({
            let hi = status & 0xF0;
            hi == 0x80 || hi == 0x90 || hi == 0xA0 || hi == 0xB0 || hi == 0xE0 || status == 0xF2
        }) ==> parse_bytes(s, seq![status, a, b]) == (
            ParseState::Data1 { status },
            seq![(status, a, b)],
        ),
        ({
            let hi = status & 0xF0;
            hi == 0xC0 || hi == 0xD0 || status == 0xF1 || status == 0xF3
        }) ==> parse_bytes(s, seq![status, a]) == (
            ParseState::Data1 { status },
            seq![(status, a, 0u8)],
        ),
        (status == 0xF0 || 0xF4 <= status) ==> parse_step(s, status) == (
            ParseState::Idle,
            Some((status, 0u8, 0u8)),
        ),
{
    let hi = status & 0xF0;
    assert(0xF0 <= status ==> status & 0xF0 == 0xF0) by (bit_vector);
    if hi == 0x80 || hi == 0x90 || hi == 0xA0 || hi == 0xB0 || hi == 0xE0 || status == 0xF2 {
        assert(data_len(status) == 2);
        law_full_message_from_any_state(s, status, a, b);
    }
    if hi == 0xC0 || hi == 0xD0 || status == 0xF1 || status == 0xF3 {
        assert(data_len(status) == 1);
        let e = Seq::<MidiMsg>::empty();
        assert(seq![status].drop_last() =~= Seq::<u8>::empty());
        assert(parse_bytes(s, Seq::<u8>::empty()) == (s, e));
        assert(parse_bytes(s, seq![status]) == (ParseState::Data1 { status }, e));
        assert(seq![status, a].drop_last() =~= seq![status]);
        assert(e.push((status, a, 0u8)) =~= seq![(status, a, 0u8)]);
    }
}

/// Los estados alcanzables se preservan, y todo mensaje emitido desde uno
/// de ellos tiene un byte de status (bit alto en 1) y datos de 7 bits.
pub proof fn law_messages_well_formed(s: ParseState, byte: u8)
    requires
        parse_state_wf(s),
    ensures
        parse_state_wf(parse_step(s, byte).0),
        parse_step(s, byte).1 matches Some(m) ==> m.0 >= 0x80 && m.1 < 0x80 && m.2 < 0x80,
{
}

/// Partir la entrada en dos no cambia lo que se parsea: alimentar `a` y
/// después `b` deja el mismo estado y los mismos mensajes que `a + b`.
pub proof fn law_parse_chunking_is_irrelevant(s: ParseState, a: Seq<u8>, b: Seq<u8>)
    ensures
        ({
            let (s1, m1) = parse_bytes(s, a);
            let (s2, m2) = parse_bytes(s1, b);
            parse_bytes(s, a + b) == (s2, m1 + m2)
        }),
    decreases b.len(),
{
    if b.len() == 0 {
        assert(a + b =~= a);
        let (s1, m1) = parse_bytes(s, a);
        assert(m1 + Seq::<MidiMsg>::empty() =~= m1);
    } else {
        law_parse_chunking_is_irrelevant(s, a, b.drop_last());
        assert((a + b).drop_last() =~= a + b.drop_last());
        assert((a + b).last() == b.last());
        let (s1, m1) = parse_bytes(s, a);
        let (sb, mb) = parse_bytes(s1, b.drop_last());
        let (sc, m) = parse_step(sb, b.last());
        match m {
            Some(msg) => assert((m1 + mb).push(msg) =~= m1 + mb.push(msg)),
            None => {},
        }
    }
}

// ── Formateo legible ─────────────────────────────────────────────────────

/// Texto que describe el mensaje (status, d1, d2).
pub open spec fn midi_msg_text(status: u8, d1: u8, d2: u8) -> Seq<char> {
    let ch = ((status & 0x0F) + 1) as nat;
    let hi = status & 0xF0;
    if hi == 0x80 {
        "Note Off    ch="@ + pad_left(dec_str(ch), 2) + " note="@ + pad_left(dec_str(d1 as nat), 3)
            + " vel="@ + pad_left(dec_str(d2 as nat), 3)
    } else if hi == 0x90 {
        if d2 == 0 {
            "Note Off    ch="@ + pad_left(dec_str(ch), 2) + " note="@ + pad_left(
                dec_str(d1 as nat),
                3,
            ) + " (vel=0 via running status)"@
        } else {
            "Note On     ch="@ + pad_left(dec_str(ch), 2) + " note="@ + pad_left(
                dec_str(d1 as nat),
                3,
            ) + " vel="@ + pad_left(dec_str(d2 as nat), 3)
        }
    } else if hi == 0xA0 {
        "Aftertouch  ch="@ + pad_left(dec_str(ch), 2) + " note="@ + pad_left(dec_str(d1 as nat), 3)
            + " val="@ + pad_left(dec_str(d2 as nat), 3)
    } else if hi == 0xB0 {
        "CC          ch="@ + pad_left(dec_str(ch), 2) + " cc="@ + pad_left(dec_str(d1 as nat), 3)
            + "  val="@ + pad_left(dec_str(d2 as nat), 3)
    } else if hi == 0xC0 {
        "ProgChange  ch="@ + pad_left(dec_str(ch), 2) + " prog="@ + pad_left(dec_str(d1 as nat), 3)
    } else if hi == 0xD0 {
        "ChanPress   ch="@ + pad_left(dec_str(ch), 2) + " val="@ + pad_left(dec_str(d1 as nat), 3)
    } else if hi == 0xE0 {
        "PitchBend   ch="@ + pad_left(dec_str(ch), 2) + " val="@ + pad_left(
            int_str(pitch_bend_value(d1, d2)),
            6,
        )
    } else if hi == 0xF0 {
        if status == 0xF0 {
            "SysEx Start"@
        } else if status == 0xF1 {
            "MTC Quarter Frame  val="@ + dec_str(d1 as nat)
        } else if status == 0xF2 {
            "Song Pos           lsb="@ + dec_str(d1 as nat) + " msb="@ + dec_str(d2 as nat)
        } else if status == 0xF3 {
            "Song Select        song="@ + dec_str(d1 as nat)
        } else if status == 0xF6 {
            "Tune Request"@
        } else if status == 0xF7 {
            "SysEx End"@
        } else if status == 0xF8 {
            "Clock"@
        } else if status == 0xFA {
            "Start"@
        } else if status == 0xFB {
            "Continue"@
        } else if status == 0xFC {
            "Stop"@
        } else if status == 0xFE {
            "Active Sense"@
        } else if status == 0xFF {
            "Reset"@
        } else {
            "SysCommon 0x"@ + hex2(status)
        }
    } else {
        "Unknown 0x"@ + hex2(status) + " "@ + hex2(d1) + " "@ + hex2(d2)
    }
}

/// Valor de pitch bend con signo: los 14 bits (d2 << 7 | d1) centrados en
/// 8192.
pub open spec fn pitch_bend_value(d1: u8, d2: u8) -> int {
    (((d2 as u16) << 7u16) | (d1 as u16)) as int - 8192
}

pub fn format_midi_msg(status: u8, d1: u8, d2: u8) -> (s: String)
    ensures
        s@ == midi_msg_text(status, d1, d2),
{
    assert(status & 0x0F < 16) by (bit_vector);
    let ch: u8 = (status & 0x0F) + 1;
    let hi = status & 0xF0;
    let mut s = String::new();
    if hi == 0x80 {
        s.append("Note Off    ch=");
        append_dec_padded(&mut s, ch as u32, 2);
        s.append(" note=");
        append_dec_padded(&mut s, d1 as u32, 3);
        s.append(" vel=");
        append_dec_padded(&mut s, d2 as u32, 3);
    } else if hi == 0x90 {
        if d2 == 0 {
            s.append("Note Off    ch=");
            append_dec_padded(&mut s, ch as u32, 2);
            s.append(" note=");
            append_dec_padded(&mut s, d1 as u32, 3);
            s.append(" (vel=0 via running status)");
        } else {
            s.append("Note On     ch=");
            append_dec_padded(&mut s, ch as u32, 2);
            s.append(" note=");
            append_dec_padded(&mut s, d1 as u32, 3);
            s.append(" vel=");
            append_dec_padded(&mut s, d2 as u32, 3);
        }
    } else if hi == 0xA0 {
        s.append("Aftertouch  ch=");
        append_dec_padded(&mut s, ch as u32, 2);
        s.append(" note=");
        append_dec_padded(&mut s, d1 as u32, 3);
        s.append(" val=");
        append_dec_padded(&mut s, d2 as u32, 3);
    } else if hi == 0xB0 {
        s.append("CC          ch=");
        append_dec_padded(&mut s, ch as u32, 2);
        s.append(" cc=");
        append_dec_padded(&mut s, d1 as u32, 3);
        s.append("  val=");
        append_dec_padded(&mut s, d2 as u32, 3);
    } else if hi == 0xC0 {
        s.append("ProgChange  ch=");
        append_dec_padded(&mut s, ch as u32, 2);
        s.append(" prog=");
        append_dec_padded(&mut s, d1 as u32, 3);
    } else if hi == 0xD0 {
        s.append("ChanPress   ch=");
        append_dec_padded(&mut s, ch as u32, 2);
        s.append(" val=");
        append_dec_padded(&mut s, d1 as u32, 3);
    } else if hi == 0xE0 {
        let raw: u16 = ((d2 as u16) << 7u16) | (d1 as u16);
        assert(raw < 0x8000) by (bit_vector)
            requires
                raw == ((d2 as u16) << 7u16) | (d1 as u16),
        ;
        let bend: i32 = raw as i32 - 8192;
        s.append("PitchBend   ch=");
        append_dec_padded(&mut s, ch as u32, 2);
        s.append(" val=");
        append_int_padded(&mut s, bend, 6);
    } else if hi == 0xF0 {
        if status == 0xF0 {
            s.append("SysEx Start");
        } else if status == 0xF1 {
            s.append("MTC Quarter Frame  val=");
            append_dec_padded(&mut s, d1 as u32, 0);
        } else if status == 0xF2 {
            s.append("Song Pos           lsb=");
            append_dec_padded(&mut s, d1 as u32, 0);
            s.append(" msb=");
            append_dec_padded(&mut s, d2 as u32, 0);
        } else if status == 0xF3 {
            s.append("Song Select        song=");
            append_dec_padded(&mut s, d1 as u32, 0);
        } else if status == 0xF6 {
            s.append("Tune Request");
        } else if status == 0xF7 {
            s.append("SysEx End");
        } else if status == 0xF8 {
            s.append("Clock");
        } else if status == 0xFA {
            s.append("Start");
        } else if status == 0xFB {
            s.append("Continue");
        } else if status == 0xFC {
            s.append("Stop");
        } else if status == 0xFE {
            s.append("Active Sense");
        } else if status == 0xFF {
            s.append("Reset");
        } else {
            s.append("SysCommon 0x");
            append_hex2(&mut s, status);
        }
    } else {
        s.append("Unknown 0x");
        append_hex2(&mut s, status);
        s.append(" ");
        append_hex2(&mut s, d1);
        s.append(" ");
        append_hex2(&mut s, d2);
    }
    s
}

} // verus!
