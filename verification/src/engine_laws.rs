//! Leyes del secuenciador: ninguna nota queda colgada, el corte prolijo no
//! dispara pasos nuevos, y el reloj externo reproduce lo mismo que el
//! interno.
use vstd::multiset::Multiset;
use vstd::prelude::*;

use crate::engine::{
    input_applied, stop_pressed, viewed, clock_source_set, feed_byte, feed_bytes, fired, has_something_to_cut, held, internal_tick_result, mute_toggled, new_offs,
    note_off_msg, note_on_msg, offs_msgs, ons_msgs, pending_stop_emitted, realtime_msg, released,
    step_toggled, tick_output, ticked,
    ClockSource, PendingOff, SequencerState, TimedMidi, Transport, MIDI_CLOCK, MIDI_CONTINUE,
    MIDI_START, MIDI_STOP,
};
use crate::input::{Button, InputEvent};
use crate::view::ViewModel;
use crate::midi::{parse_state_wf, parse_step};
use crate::pattern::{events_at_tick, NoteEvent, StepMode, Track};

verus! {

/// Nota que suena: (canal 0-15, nota).
pub type NoteKey = (u8, u8);

pub open spec fn pending_key(p: PendingOff) -> NoteKey {
    (p.channel & 0x0F, p.note)
}

pub open spec fn event_key(e: NoteEvent) -> NoteKey {
    (e.channel & 0x0F, e.note)
}

/// Notas que quedan sonando según los note-offs agendados.
pub open spec fn sounding(ps: Seq<PendingOff>) -> Multiset<NoteKey>
    decreases ps.len(),
{
    if ps.len() == 0 {
        Multiset::empty()
    } else {
        sounding(ps.drop_last()).insert(pending_key(ps.last()))
    }
}

pub open spec fn is_note_on(m: TimedMidi) -> bool {
    m.len == 3 && m.bytes[0] & 0xF0 == 0x90
}

pub open spec fn is_note_off(m: TimedMidi) -> bool {
    m.len == 3 && m.bytes[0] & 0xF0 == 0x80
}

pub open spec fn msg_key(m: TimedMidi) -> NoteKey {
    (m.bytes[0] & 0x0F, m.bytes[1])
}

/// Notas encendidas por los mensajes.
pub open spec fn note_ons(ms: Seq<TimedMidi>) -> Multiset<NoteKey>
    decreases ms.len(),
{
    if ms.len() == 0 {
        Multiset::empty()
    } else if is_note_on(ms.last()) {
        note_ons(ms.drop_last()).insert(msg_key(ms.last()))
    } else {
        note_ons(ms.drop_last())
    }
}

/// Notas apagadas por los mensajes.
pub open spec fn note_offs(ms: Seq<TimedMidi>) -> Multiset<NoteKey>
    decreases ms.len(),
{
    if ms.len() == 0 {
        Multiset::empty()
    } else if is_note_off(ms.last()) {
        note_offs(ms.drop_last()).insert(msg_key(ms.last()))
    } else {
        note_offs(ms.drop_last())
    }
}

pub open spec fn event_keys(evs: Seq<NoteEvent>) -> Multiset<NoteKey>
    decreases evs.len(),
{
    if evs.len() == 0 {
        Multiset::empty()
    } else {
        event_keys(evs.drop_last()).insert(event_key(evs.last()))
    }
}

// ── Lemas de conteo ──────────────────────────────────────────────────────

proof fn lemma_sounding_concat(a: Seq<PendingOff>, b: Seq<PendingOff>)
    ensures
        sounding(a + b) =~= sounding(a).add(sounding(b)),
    decreases b.len(),
{
    if b.len() > 0 {
        assert((a + b).drop_last() =~= a + b.drop_last());
        lemma_sounding_concat(a, b.drop_last());
    } else {
        assert(a + b =~= a);
    }
}

proof fn lemma_ons_offs_concat(a: Seq<TimedMidi>, b: Seq<TimedMidi>)
    ensures
        note_ons(a + b) =~= note_ons(a).add(note_ons(b)),
        note_offs(a + b) =~= note_offs(a).add(note_offs(b)),
    decreases b.len(),
{
    if b.len() > 0 {
        assert((a + b).drop_last() =~= a + b.drop_last());
        lemma_ons_offs_concat(a, b.drop_last());
    } else {
        assert(a + b =~= a);
    }
}

proof fn lemma_released_held_split(ps: Seq<PendingOff>, tick: u32)
    ensures
        sounding(ps) =~= sounding(released(ps, tick)).add(sounding(held(ps, tick))),
    decreases ps.len(),
{
    if ps.len() > 0 {
        lemma_released_held_split(ps.drop_last(), tick);
        let x = ps.last();
        assert(seq![x].drop_last() =~= Seq::<PendingOff>::empty());
        assert(sounding(Seq::<PendingOff>::empty()) =~= Multiset::<NoteKey>::empty());
        assert(seq![x].last() == x);
        assert(sounding(seq![x]) =~= Multiset::<NoteKey>::empty().insert(pending_key(x)));
        if x.due_tick <= tick {
            lemma_sounding_concat(released(ps.drop_last(), tick), seq![x]);
            assert(held(ps, tick) =~= held(ps.drop_last(), tick));
        } else {
            lemma_sounding_concat(held(ps.drop_last(), tick), seq![x]);
            assert(released(ps, tick) =~= released(ps.drop_last(), tick));
        }
        assert(seq![x].drop_last() =~= Seq::<PendingOff>::empty());
    }
}

proof fn lemma_note_on_key(at_us: u64, channel: u8, note: u8, velocity: u8)
    ensures
        is_note_on(note_on_msg(at_us, channel, note, velocity)),
        !is_note_off(note_on_msg(at_us, channel, note, velocity)),
        msg_key(note_on_msg(at_us, channel, note, velocity)) == (channel & 0x0F, note),
{
    assert((0x90u8 | (channel & 0x0F)) & 0xF0 == 0x90) by (bit_vector);
    assert((0x90u8 | (channel & 0x0F)) & 0x0F == channel & 0x0F) by (bit_vector);
}

proof fn lemma_note_off_key(at_us: u64, channel: u8, note: u8)
    ensures
        is_note_off(note_off_msg(at_us, channel, note)),
        !is_note_on(note_off_msg(at_us, channel, note)),
        msg_key(note_off_msg(at_us, channel, note)) == (channel & 0x0F, note),
{
    assert((0x80u8 | (channel & 0x0F)) & 0xF0 == 0x80) by (bit_vector);
    assert((0x80u8 | (channel & 0x0F)) & 0x0F == channel & 0x0F) by (bit_vector);
}

proof fn lemma_realtime_not_note(at_us: u64, status: u8)
    ensures
        note_ons(seq![realtime_msg(at_us, status)]) =~= Multiset::empty(),
        note_offs(seq![realtime_msg(at_us, status)]) =~= Multiset::empty(),
        note_ons(Seq::<TimedMidi>::empty()) =~= Multiset::empty(),
        note_offs(Seq::<TimedMidi>::empty()) =~= Multiset::empty(),
{
    let m = realtime_msg(at_us, status);
    assert(seq![m].drop_last() =~= Seq::<TimedMidi>::empty());
    assert(note_ons(Seq::<TimedMidi>::empty()) =~= Multiset::empty());
    assert(note_offs(Seq::<TimedMidi>::empty()) =~= Multiset::empty());
    assert(seq![m].last() == m);
    assert(!is_note_on(m) && !is_note_off(m));
}

proof fn lemma_offs_msgs_keys(ps: Seq<PendingOff>, at_us: u64)
    ensures
        note_offs(offs_msgs(ps, at_us)) =~= sounding(ps),
        note_ons(offs_msgs(ps, at_us)) =~= Multiset::empty(),
    decreases ps.len(),
{
    if ps.len() > 0 {
        lemma_offs_msgs_keys(ps.drop_last(), at_us);
        assert(offs_msgs(ps, at_us).drop_last() =~= offs_msgs(ps.drop_last(), at_us));
        lemma_note_off_key(at_us, ps.last().channel, ps.last().note);
    }
}

proof fn lemma_ons_msgs_keys(evs: Seq<NoteEvent>, at_us: u64, tick: u32)
    ensures
        note_ons(ons_msgs(evs, at_us)) =~= event_keys(evs),
        note_offs(ons_msgs(evs, at_us)) =~= Multiset::empty(),
        sounding(new_offs(evs, tick)) =~= event_keys(evs),
    decreases evs.len(),
{
    if evs.len() > 0 {
        lemma_ons_msgs_keys(evs.drop_last(), at_us, tick);
        assert(ons_msgs(evs, at_us).drop_last() =~= ons_msgs(evs.drop_last(), at_us));
        assert(new_offs(evs, tick).drop_last() =~= new_offs(evs.drop_last(), tick));
        let e = evs.last();
        lemma_note_on_key(at_us, e.channel, e.note, e.velocity);
    }
}

// ── Leyes ────────────────────────────────────────────────────────────────

/// Ninguna nota se pierde en un tick: lo que sonaba más lo que se encendió
/// es igual a lo que sigue sonando más lo que se apagó. Todo note-on que
/// emite un tick queda con su note-off agendado, y todo note-off emitido
/// corresponde a una nota que sonaba.
pub proof fn law_tick_conserves_sounding_notes(s: SequencerState, at_us: u64, send_clock: bool)
    ensures
        sounding(ticked(s).pending_offs).add(note_offs(tick_output(s, at_us, send_clock)))
            =~= sounding(s.pending_offs).add(note_ons(tick_output(s, at_us, send_clock))),
{
    let clock: Seq<TimedMidi> = if send_clock {
        seq![realtime_msg(at_us, MIDI_CLOCK)]
    } else {
        Seq::empty()
    };
    let rel = released(s.pending_offs, s.tick);
    let hld = held(s.pending_offs, s.tick);
    let evs = fired(s);
    let offs = offs_msgs(rel, at_us);
    let ons = ons_msgs(evs, at_us);
    lemma_ons_offs_concat(clock + offs, ons);
    lemma_ons_offs_concat(clock, offs);
    lemma_realtime_not_note(at_us, MIDI_CLOCK);
    lemma_offs_msgs_keys(rel, at_us);
    lemma_ons_msgs_keys(evs, at_us, s.tick);
    lemma_sounding_concat(hld, new_offs(evs, s.tick));
    lemma_released_held_split(s.pending_offs, s.tick);
}

/// Un tick del reloj interno tampoco pierde notas (el 0xFC del final del
/// corte prolijo no es una nota).
pub proof fn law_internal_tick_conserves_sounding_notes(s: SequencerState, at_us: u64)
    ensures
        ({
            let (s2, out, _) = internal_tick_result(s, at_us);
            sounding(s2.pending_offs).add(note_offs(out)) =~= sounding(s.pending_offs).add(
                note_ons(out),
            )
        }),
{
    law_tick_conserves_sounding_notes(s, at_us, true);
    let o = tick_output(s, at_us, true);
    lemma_realtime_not_note(at_us, MIDI_STOP);
    assert(o.push(realtime_msg(at_us, MIDI_STOP)).drop_last() =~= o);
}

/// Un Stop pendiente apaga todo: tras emitirlo no queda nada sonando, se
/// emite un note-off por cada nota que sonaba y ningún note-on.
pub proof fn law_stop_leaves_no_hung_notes(s: SequencerState, now_us: u64)
    requires
        s.stop_pending,
    ensures
        ({
            let (s2, out) = pending_stop_emitted(s, now_us);
            &&& s2.pending_offs.len() == 0
            &&& note_offs(out) =~= sounding(s.pending_offs)
            &&& note_ons(out) =~= Multiset::empty()
        }),
{
    let stop: Seq<TimedMidi> = if s.stop_sends_msg {
        seq![realtime_msg(now_us, MIDI_STOP)]
    } else {
        Seq::empty()
    };
    lemma_realtime_not_note(now_us, MIDI_STOP);
    lemma_ons_offs_concat(stop, offs_msgs(s.pending_offs, now_us));
    lemma_offs_msgs_keys(s.pending_offs, now_us);
}

/// Cambiar la fuente de reloj con algo en marcha corta en seco: el próximo
/// avance emite el Stop de transporte solo si la fuente vieja era la
/// interna (éramos master al cortar), seguido del note-off de cada nota que
/// sonaba; el transporte queda detenido en la fuente nueva.
pub proof fn law_clock_switch_cuts_as_the_old_master(
    s: SequencerState,
    src: ClockSource,
    now_us: u64,
)
    requires
        src != s.clock_source,
        !s.stop_pending,
        !s.stop_sends_msg,
        has_something_to_cut(s),
    ensures
        ({
            let s1 = clock_source_set(s, src);
            let (s2, out) = pending_stop_emitted(s1, now_us);
            &&& s1.transport == Transport::Stopped
            &&& s1.clock_source == src
            &&& s2.pending_offs.len() == 0
            &&& out == (if s.clock_source == ClockSource::Internal {
                seq![realtime_msg(now_us, MIDI_STOP)]
            } else {
                Seq::empty()
            }) + offs_msgs(s.pending_offs, now_us)
        }),
{
}

/// Mientras se apaga (primer toque de Stop) no se dispara ningún paso
/// nuevo: un tick solo emite note-offs, y el transporte sigue apagándose o
/// ya quedó detenido.
pub proof fn law_stopping_fires_no_new_notes(s: SequencerState, at_us: u64)
    requires
        s.transport == Transport::Stopping,
    ensures
        ({
            let (s2, out, done) = internal_tick_result(s, at_us);
            &&& note_ons(out) =~= Multiset::empty()
            &&& done ==> s2.transport == Transport::Stopped && s2.pending_offs.len() == 0
            &&& !done ==> s2.transport == Transport::Stopping && s2.pending_offs.len() > 0
        }),
{
    let o = tick_output(s, at_us, true);
    assert(fired(s) =~= Seq::<NoteEvent>::empty());
    lemma_ons_msgs_keys(fired(s), at_us, s.tick);
    lemma_offs_msgs_keys(released(s.pending_offs, s.tick), at_us);
    lemma_realtime_not_note(at_us, MIDI_CLOCK);
    lemma_realtime_not_note(at_us, MIDI_STOP);
    lemma_ons_offs_concat(
        seq![realtime_msg(at_us, MIDI_CLOCK)] + offs_msgs(released(s.pending_offs, s.tick), at_us),
        ons_msgs(fired(s), at_us),
    );
    lemma_ons_offs_concat(
        seq![realtime_msg(at_us, MIDI_CLOCK)],
        offs_msgs(released(s.pending_offs, s.tick), at_us),
    );
    lemma_ons_offs_concat(o, seq![realtime_msg(at_us, MIDI_STOP)]);
    assert(o + seq![realtime_msg(at_us, MIDI_STOP)] =~= o.push(realtime_msg(at_us, MIDI_STOP)));
}

/// Como esclavo, un 0xF8 entrante (con el transporte en marcha) produce
/// exactamente las mismas notas y el mismo estado de notas que un tick del
/// reloj interno, salvo el 0xF8 que el master emite.
pub proof fn law_external_clock_matches_internal(s: SequencerState, now_us: u64)
    requires
        s.clock_source == ClockSource::External,
        s.transport != Transport::Stopped,
        parse_state_wf(s.parser),
    ensures
        ({
            let (s2, out) = feed_byte(s, MIDI_CLOCK, now_us);
            &&& tick_output(s, now_us, true) == seq![realtime_msg(now_us, MIDI_CLOCK)] + out
            &&& s2.pending_offs == ticked(s).pending_offs
            &&& s2.tick == ticked(s).tick
            &&& s2.parser == s.parser
        }),
{
    assert(parse_step(s.parser, MIDI_CLOCK) == (s.parser, Some((MIDI_CLOCK, 0u8, 0u8))));
    let o = tick_output(s, now_us, false);
    assert(tick_output(s, now_us, true) =~= seq![realtime_msg(now_us, MIDI_CLOCK)] + o);
}

/// Un 0xFC entrante en modo esclavo tampoco deja notas colgadas.
pub proof fn law_external_stop_leaves_no_hung_notes(s: SequencerState, now_us: u64)
    requires
        s.clock_source == ClockSource::External,
    ensures
        ({
            let (s2, out) = feed_byte(s, MIDI_STOP, now_us);
            &&& s2.pending_offs.len() == 0
            &&& s2.transport == Transport::Stopped
            &&& note_offs(out) =~= sounding(s.pending_offs)
            &&& note_ons(out) =~= Multiset::empty()
        }),
{
    lemma_offs_msgs_keys(s.pending_offs, now_us);
}

/// Partir una ráfaga de entrada MIDI en dos no cambia nada: procesar `a`
/// y después `b` deja el mismo estado y emite lo mismo que procesar `a + b`
/// de una vez.
pub proof fn law_midi_in_chunking_is_irrelevant(
    s: SequencerState,
    a: Seq<u8>,
    b: Seq<u8>,
    now_us: u64,
)
    ensures
        ({
            let (s1, o1) = feed_bytes(s, a, now_us);
            let (s2, o2) = feed_bytes(s1, b, now_us);
            feed_bytes(s, a + b, now_us) == (s2, o1 + o2)
        }),
    decreases b.len(),
{
    if b.len() == 0 {
        assert(a + b =~= a);
        let (s1, o1) = feed_bytes(s, a, now_us);
        assert(o1 + Seq::<TimedMidi>::empty() =~= o1);
    } else {
        law_midi_in_chunking_is_irrelevant(s, a, b.drop_last(), now_us);
        assert((a + b).drop_last() =~= a + b.drop_last());
        assert((a + b).last() == b.last());
        let (s1, o1) = feed_bytes(s, a, now_us);
        let (sb, ob) = feed_bytes(s1, b.drop_last(), now_us);
        let (sc, oc) = feed_byte(sb, b.last(), now_us);
        assert(o1 + ob + oc =~= o1 + (ob + oc));
    }
}

/// Tocar dos veces el mismo paso deja el track como estaba.
pub proof fn law_toggle_twice_restores(t: Track, u: Track, v: Track, step: int)
    requires
        step_toggled(t, u, step),
        step_toggled(u, v, step),
    ensures
        v.steps@ == t.steps@,
        v.channel == t.channel,
        v.len == t.len,
        v.muted == t.muted,
        v.mode == t.mode,
{
    if t.mode == StepMode::Manual && 0 <= step < t.steps@.len() {
        assert(v.steps@ =~= t.steps@);
    }
}

/// Mutear dos veces deja el track como estaba.
pub proof fn law_mute_twice_restores(t: Track, u: Track, v: Track)
    requires
        mute_toggled(t, u),
        mute_toggled(u, v),
    ensures
        v.steps == t.steps,
        v.channel == t.channel,
        v.len == t.len,
        v.muted == t.muted,
        v.mode == t.mode,
{
}

/// Como esclavo, un 0xFA (Start) arranca siempre desde el principio: el
/// contador de ticks vuelve a 0, se olvidan los note-offs agendados y el
/// transporte queda en marcha, sin emitir nada. Un 0xFB (Continue) en
/// cambio retoma donde estaba: conserva el contador y las notas en curso.
pub proof fn law_external_start_restarts_continue_resumes(s: SequencerState, now_us: u64)
    requires
        s.clock_source == ClockSource::External,
    ensures
        ({
            let (s1, o1) = feed_byte(s, MIDI_START, now_us);
            &&& s1.tick == 0
            &&& s1.pending_offs.len() == 0
            &&& s1.transport == Transport::Playing
            &&& s1.pattern == s.pattern
            &&& s1.clock_source == s.clock_source
            &&& s1.parser == s.parser
            &&& o1.len() == 0
        }),
        ({
            let (s2, o2) = feed_byte(s, MIDI_CONTINUE, now_us);
            &&& s2.tick == s.tick
            &&& s2.pending_offs == s.pending_offs
            &&& s2.transport == Transport::Playing
            &&& s2.pattern == s.pattern
            &&& o2.len() == 0
        }),
{
}

/// Tras un 0xFA, el primer 0xF8 es el tick 0: suena el primer paso del
/// patrón (sus note-ons, estampados con el instante de llegada) y nada más,
/// cualquiera haya sido el estado anterior; el contador queda en 1.
pub proof fn law_start_then_clock_plays_the_first_step(s: SequencerState, now_us: u64)
    requires
        s.clock_source == ClockSource::External,
    ensures
        feed_bytes(s, seq![MIDI_START, MIDI_CLOCK], now_us).1 == ons_msgs(
            events_at_tick(s.pattern, 0),
            now_us,
        ),
        feed_bytes(s, seq![MIDI_START, MIDI_CLOCK], now_us).0.tick == 1,
{
    let bytes = seq![MIDI_START, MIDI_CLOCK];
    assert(bytes.drop_last() =~= seq![MIDI_START]);
    assert(seq![MIDI_START].drop_last() =~= Seq::<u8>::empty());
    let (s1, o1) = feed_byte(s, MIDI_START, now_us);
    assert(feed_bytes(s, Seq::<u8>::empty(), now_us) == (s, Seq::<TimedMidi>::empty()));
    assert(seq![MIDI_START].last() == MIDI_START);
    assert(feed_bytes(s, seq![MIDI_START], now_us) == (s1, Seq::<TimedMidi>::empty() + o1));
    assert(released(s1.pending_offs, s1.tick) =~= Seq::<PendingOff>::empty());
    let o = tick_output(s1, now_us, false);
    assert(o =~= ons_msgs(events_at_tick(s.pattern, 0), now_us));
    assert(Seq::<TimedMidi>::empty() + o1 + o =~= o);
}

/// La vista muestra como paso actual el del track seleccionado: si el
/// track existe, coincide con el paso actual de su vista; si no, es 0.
/// Todo paso actual cae dentro del largo de su track, y con el transporte
/// detenido todos valen 0.
pub proof fn law_view_current_step_is_the_selected_tracks(s: SequencerState, v: ViewModel)
    requires
        viewed(s, v),
    ensures
        s.selected_track < s.pattern.tracks@.len() ==> v.current_step
            == v.tracks@[s.selected_track as int].current_step,
        s.selected_track >= s.pattern.tracks@.len() ==> v.current_step == 0,
        v.selected_track == s.selected_track,
        forall|i: int|
            0 <= i < v.tracks@.len() && s.pattern.tracks@[i].len > 0 ==> #[trigger] v.tracks@[
                i
            ].current_step < s.pattern.tracks@[i].len,
        s.transport == Transport::Stopped ==> v.current_step == 0 && forall|i: int|
            0 <= i < v.tracks@.len() ==> #[trigger] v.tracks@[i].current_step == 0,
{
    if s.selected_track < s.pattern.tracks@.len() {
        assert(crate::engine::track_viewed(
            s,
            s.pattern.tracks@[s.selected_track as int],
            v.tracks@[s.selected_track as int],
        ));
    }
    assert forall|i: int|
        0 <= i < v.tracks@.len() && s.pattern.tracks@[i].len > 0 implies #[trigger] v.tracks@[
            i
        ].current_step < s.pattern.tracks@[i].len by {
        assert(crate::engine::track_viewed(s, s.pattern.tracks@[i], v.tracks@[i]));
    }
    if s.transport == Transport::Stopped {
        assert forall|i: int| 0 <= i < v.tracks@.len() implies #[trigger] v.tracks@[i].current_step
            == 0 by {
            assert(crate::engine::track_viewed(s, s.pattern.tracks@[i], v.tracks@[i]));
        }
    }
}

/// Soltar un botón no hace nada (las acciones van en el toque), y tampoco
/// Shift ni el botón del encoder: el estado queda igual.
pub proof fn law_button_release_changes_nothing(a: SequencerState, b: SequencerState, x: Button)
    ensures
        input_applied(a, b, InputEvent::ButtonUp(x)) ==> b == a,
        input_applied(a, b, InputEvent::ButtonDown(Button::Shift)) ==> b == a,
        input_applied(a, b, InputEvent::ButtonDown(Button::EncoderPush)) ==> b == a,
        input_applied(a, b, InputEvent::EncoderDelta(0)) ==> b == a,
{
}

/// El primer toque de Stop con notas sonando es prolijo: el transporte pasa
/// a apagarse, las notas siguen agendadas para terminar su gate y no se
/// agenda ningún corte; el segundo toque corta ya: transporte detenido y
/// corte pendiente.
pub proof fn law_stop_touches(a: SequencerState, b: SequencerState, c: SequencerState)
    requires
        a.transport == Transport::Playing,
        a.pending_offs.len() > 0,
        input_applied(a, b, InputEvent::ButtonDown(Button::Stop)),
        input_applied(b, c, InputEvent::ButtonDown(Button::Stop)),
    ensures
        b.transport == Transport::Stopping,
        b.pending_offs == a.pending_offs,
        b.stop_pending == a.stop_pending,
        b.tick == a.tick,
        c.transport == Transport::Stopped,
        c.stop_pending,
        c.pending_offs == a.pending_offs,
{
}

/// La entrada MIDI solo mueve el secuenciador con mensajes de transporte
/// como esclavo: con reloj interno, con un byte que no completa mensaje, con
/// un mensaje que no es 0xFA/0xFB/0xFC/0xF8, o con un 0xF8 estando
/// detenido, lo único que cambia es el estado del parser y no se emite nada.
pub proof fn law_midi_in_moves_only_on_transport_messages(s: SequencerState, b: u8, now_us: u64)
    ensures
        ({
            let (p, m) = parse_step(s.parser, b);
            (s.clock_source == ClockSource::Internal || m is None || (m matches Some(msg) && (
            msg.0 != MIDI_START && msg.0 != MIDI_CONTINUE && msg.0 != MIDI_STOP && msg.0
                != MIDI_CLOCK)) || (m matches Some(msg) && msg.0 == MIDI_CLOCK && s.transport
                == Transport::Stopped)) ==> feed_byte(s, b, now_us) == (
                SequencerState { parser: p, ..s },
                Seq::<TimedMidi>::empty(),
            )
        }),
{
}

/// La vista refleja el estado: en marcha si el transporte no está detenido,
/// la fuente de reloj, un track por track del patrón con su canal, mute y
/// tantos pasos como su largo activo (cada uno con el estado, nota y
/// velocidad de la grilla); y el paso actual de cada track es el paso del
/// último tick disparado, ((tick - 1) / ticks-por-paso), módulo su largo.
pub proof fn law_view_mirrors_the_state(s: SequencerState, v: ViewModel, i: int, j: int)
    requires
        viewed(s, v),
        0 <= i < s.pattern.tracks@.len(),
    ensures
        v.playing == (s.transport != Transport::Stopped),
        v.external_clock == (s.clock_source == ClockSource::External),
        v.tracks@.len() == s.pattern.tracks@.len(),
        v.tracks@[i].channel == s.pattern.tracks@[i].channel,
        v.tracks@[i].muted == s.pattern.tracks@[i].muted,
        v.tracks@[i].steps@.len() == s.pattern.tracks@[i].len,
        0 <= j < s.pattern.tracks@[i].len ==> {
            &&& v.tracks@[i].steps@[j].on == s.pattern.tracks@[i].steps@[j].on
            &&& v.tracks@[i].steps@[j].note == s.pattern.tracks@[i].steps@[j].note
            &&& v.tracks@[i].steps@[j].velocity == s.pattern.tracks@[i].steps@[j].velocity
        },
        (s.transport != Transport::Stopped && s.tick > 0 && s.pattern.ticks_per_step > 0
            && s.pattern.tracks@[i].len > 0) ==> v.tracks@[i].current_step == ((s.tick - 1)
            / (s.pattern.ticks_per_step as int)) % (s.pattern.tracks@[i].len as int),
{
    assert(crate::engine::track_viewed(s, s.pattern.tracks@[i], v.tracks@[i]));
}

/// Play arranca desde el principio: transporte en marcha, contador en 0,
/// sin notas agendadas, con un Start pendiente y ningún corte pendiente; el
/// patrón no cambia. Elegir un track solo cambia la selección, y solo si el
/// track existe.
pub proof fn law_play_and_track_select(a: SequencerState, b: SequencerState, n: u8)
    ensures
        input_applied(a, b, InputEvent::ButtonDown(Button::Play)) ==> {
            &&& b.transport == Transport::Playing
            &&& b.tick == 0
            &&& b.pending_offs.len() == 0
            &&& b.start_pending
            &&& !b.stop_pending
            &&& b.pattern == a.pattern
            &&& b.clock_source == a.clock_source
        },
        input_applied(a, b, InputEvent::ButtonDown(Button::TrackSelect(n))) ==> {
            &&& b.selected_track == if (n as int) < a.pattern.tracks@.len() {
                n as usize
            } else {
                a.selected_track
            }
            &&& b.pattern == a.pattern
            &&& b.transport == a.transport
            &&& b.tick == a.tick
        },
{
}

/// Un botón de paso invierte ese paso del track seleccionado (si el track
/// es manual y el paso existe) y no toca nada más: ni los otros pasos ni
/// los otros tracks.
pub proof fn law_step_button_toggles_one_step(a: SequencerState, b: SequencerState, n: u8, k: int)
    requires
        input_applied(a, b, InputEvent::ButtonDown(Button::Step(n))),
        a.selected_track < a.pattern.tracks@.len(),
        a.pattern.tracks@[a.selected_track as int].mode == StepMode::Manual,
        (n as int) < a.pattern.tracks@[a.selected_track as int].steps@.len(),
    ensures
        ({
            let sel = a.selected_track as int;
            let t = a.pattern.tracks@[sel];
            let u = b.pattern.tracks@[sel];
            &&& u.steps@[n as int].on == !t.steps@[n as int].on
            &&& u.steps@[n as int].note == t.steps@[n as int].note
            &&& u.steps@.len() == t.steps@.len()
            &&& (0 <= k < t.steps@.len() && k != n) ==> u.steps@[k] == t.steps@[k]
            &&& (0 <= k < a.pattern.tracks@.len() && k != sel) ==> b.pattern.tracks@[k]
                == a.pattern.tracks@[k]
            &&& b.transport == a.transport
            &&& b.tick == a.tick
        }),
{
}

} // verus!
