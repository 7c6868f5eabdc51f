//! Secuenciador sans-io: transporte, note-offs agendados, reloj externo y
//! vista. No posee threads, timers ni I/O. La capa de tiempo (que lleva el
//! tempo y el instante del próximo tick) lo hace avanzar tick a tick y
//! recibe los eventos MIDI a emitir.
use vstd::prelude::*;

use crate::input::{Button, InputEvent};
use crate::midi::{parse_step, MidiParser, ParseState};
use crate::pattern::{
    euclid_applied, events_at_tick, events_defined, is_starter, manual_restored, ChannelMode, NoteEvent, Pattern,
    Step, StepMode, Track,
};
use crate::view::{EuclideanView, StepView, TrackView, ViewModel};

verus! {

pub const MIDI_CLOCK: u8 = 0xF8;

pub const MIDI_START: u8 = 0xFA;

pub const MIDI_CONTINUE: u8 = 0xFB;

pub const MIDI_STOP: u8 = 0xFC;

/// Mensaje MIDI con timestamp absoluto (µs monotónicos del caller).
#[derive(Clone, Copy, Debug, PartialEq, Eq)]
pub struct TimedMidi {
    pub at_us: u64,
    pub bytes: [u8; 3],
    pub len: u8,
}

pub open spec fn realtime_msg(at_us: u64, status: u8) -> TimedMidi {
    TimedMidi { at_us, bytes: [status, 0, 0], len: 1 }
}

pub open spec fn note_on_msg(at_us: u64, channel: u8, note: u8, velocity: u8) -> TimedMidi {
    TimedMidi { at_us, bytes: [0x90 | (channel & 0x0F), note, velocity], len: 3 }
}

pub open spec fn note_off_msg(at_us: u64, channel: u8, note: u8) -> TimedMidi {
    TimedMidi { at_us, bytes: [0x80 | (channel & 0x0F), note, 0], len: 3 }
}

impl TimedMidi {
    fn realtime(at_us: u64, status: u8) -> (m: Self)
        ensures
            m == realtime_msg(at_us, status),
    {
        Self { at_us, bytes: [status, 0, 0], len: 1 }
    }

    fn note_on(at_us: u64, channel: u8, note: u8, velocity: u8) -> (m: Self)
        ensures
            m == note_on_msg(at_us, channel, note, velocity),
    {
        Self { at_us, bytes: [0x90 | (channel & 0x0F), note, velocity], len: 3 }
    }

    fn note_off(at_us: u64, channel: u8, note: u8) -> (m: Self)
        ensures
            m == note_off_msg(at_us, channel, note),
    {
        Self { at_us, bytes: [0x80 | (channel & 0x0F), note, 0], len: 3 }
    }

    /// Los bytes válidos del mensaje.
    pub fn data(&self) -> (d: &[u8])
        requires
            self.len <= 3,
        ensures
            d@ == self.bytes@.subrange(0, self.len as int),
    {
        vstd::slice::slice_subrange(self.bytes.as_slice(), 0, self.len as usize)
    }
}

#[derive(Clone, Copy, Debug, PartialEq, Eq)]
pub enum ClockSource {
    Internal,
    External,
}

#[derive(Clone, Copy, Debug, PartialEq, Eq)]
pub enum Transport {
    Stopped,
    Playing,
    /// Primer toque de Stop: deja terminar el paso en curso (su gate) y
    /// no dispara el próximo; el corte final llega cuando no queda nada
    /// sonando.
    Stopping,
}

/// Nota sonando cuyo note-off vence en `due_tick`.
#[derive(Clone, Copy, Debug, PartialEq, Eq)]
pub struct PendingOff {
    pub due_tick: u32,
    pub channel: u8,
    pub note: u8,
}

/// Qué tiene agendado el secuenciador para la capa de tiempo.
#[derive(Clone, Copy, Debug, PartialEq, Eq)]
pub enum Wakeup {
    /// Hay un Start o un Stop pendiente: atender ya.
    Now,
    /// El reloj interno corre: despertar en el instante del próximo tick.
    NextTick,
    /// Nada agendado.
    Idle,
}

pub struct Sequencer {
    pattern: Pattern,
    clock_source: ClockSource,
    transport: Transport,
    /// Próximo tick a disparar (contador desde Start).
    tick: u32,
    /// El reloj interno tiene anclado el instante del próximo tick.
    tick_scheduled: bool,
    pending_offs: Vec<PendingOff>,
    start_pending: bool,
    stop_pending: bool,
    /// El corte pendiente incluye el 0xFC de transporte: se decidió al
    /// cortar, cuando todavía éramos (o no) master.
    stop_sends_msg: bool,
    parser: MidiParser,
    selected_track: usize,
}

/// Estado abstracto del secuenciador.
pub struct SequencerState {
    pub pattern: Pattern,
    pub clock_source: ClockSource,
    pub transport: Transport,
    pub tick: u32,
    pub tick_scheduled: bool,
    pub pending_offs: Seq<PendingOff>,
    pub start_pending: bool,
    pub stop_pending: bool,
    pub stop_sends_msg: bool,
    pub parser: ParseState,
    pub selected_track: usize,
}

impl View for Sequencer {
    type V = SequencerState;

    closed spec fn view(&self) -> SequencerState {
        SequencerState {
            pattern: self.pattern,
            clock_source: self.clock_source,
            transport: self.transport,
            tick: self.tick,
            tick_scheduled: self.tick_scheduled,
            pending_offs: self.pending_offs@,
            start_pending: self.start_pending,
            stop_pending: self.stop_pending,
            stop_sends_msg: self.stop_sends_msg,
            parser: self.parser@,
            selected_track: self.selected_track,
        }
    }
}

// ── Transiciones de transporte ───────────────────────────────────────────

/// Estado recién creado con `pattern`.
pub open spec fn initial_state(pattern: Pattern) -> SequencerState {
    SequencerState {
        pattern,
        clock_source: ClockSource::Internal,
        transport: Transport::Stopped,
        tick: 0,
        tick_scheduled: false,
        pending_offs: Seq::empty(),
        start_pending: false,
        stop_pending: false,
        stop_sends_msg: false,
        parser: ParseState::Idle,
        selected_track: 0,
    }
}

/// Play: arranca desde el tick 0, descarta note-offs agendados y deja un
/// Start pendiente.
pub open spec fn played(s: SequencerState) -> SequencerState {
    SequencerState {
        transport: Transport::Playing,
        tick: 0,
        pending_offs: Seq::empty(),
        tick_scheduled: false,
        start_pending: true,
        stop_pending: false,
        stop_sends_msg: false,
        ..s
    }
}

/// Hay algo que cortar: el transporte corre o quedan notas sonando.
pub open spec fn has_something_to_cut(s: SequencerState) -> bool {
    s.transport != Transport::Stopped || s.pending_offs.len() > 0
}

/// Corte inmediato: todo lo que suena se apaga en el próximo avance y se
/// envía el Stop de transporte si en el momento del corte somos master.
pub open spec fn force_stopped(s: SequencerState) -> SequencerState {
    SequencerState {
        stop_pending: s.stop_pending || has_something_to_cut(s),
        stop_sends_msg: s.stop_sends_msg || (has_something_to_cut(s) && s.clock_source
            == ClockSource::Internal),
        transport: Transport::Stopped,
        start_pending: false,
        tick_scheduled: false,
        ..s
    }
}

/// Stop: primer toque corta prolijo (deja terminar lo que suena), segundo
/// toque mientras se apaga corta ya.
pub open spec fn stop_pressed(s: SequencerState) -> SequencerState {
    match s.transport {
        Transport::Stopped => s,
        Transport::Stopping => force_stopped(s),
        Transport::Playing => if s.pending_offs.len() == 0 {
            force_stopped(SequencerState { start_pending: false, ..s })
        } else {
            SequencerState { start_pending: false, transport: Transport::Stopping, ..s }
        },
    }
}

/// Cambio de fuente de reloj: corte inmediato si cambia.
pub open spec fn clock_source_set(s: SequencerState, src: ClockSource) -> SequencerState {
    if src == s.clock_source {
        s
    } else {
        SequencerState { clock_source: src, ..force_stopped(s) }
    }
}

/// Todo igual salvo el patrón.
pub open spec fn same_but_pattern(a: SequencerState, b: SequencerState) -> bool {
    &&& a.clock_source == b.clock_source
    &&& a.transport == b.transport
    &&& a.tick == b.tick
    &&& a.tick_scheduled == b.tick_scheduled
    &&& a.pending_offs == b.pending_offs
    &&& a.start_pending == b.start_pending
    &&& a.stop_pending == b.stop_pending
    &&& a.stop_sends_msg == b.stop_sends_msg
    &&& a.parser == b.parser
    &&& a.selected_track == b.selected_track
}

/// El patrón `b` es `a` con solo el track `i` cambiado.
pub open spec fn only_track_changed(a: Pattern, b: Pattern, i: int) -> bool {
    &&& b.ticks_per_step == a.ticks_per_step
    &&& b.channel_mode == a.channel_mode
    &&& b.tracks@ == a.tracks@.update(i, b.tracks@[i])
}

/// Mismo canal, largo, mute y modo.
pub open spec fn same_track_settings(a: Track, b: Track) -> bool {
    &&& a.channel == b.channel
    &&& a.len == b.len
    &&& a.muted == b.muted
    &&& a.mode == b.mode
}

/// `b` es `a` con el track `track` reemplazado por uno que cumple `f`
/// (respecto del track viejo); si el track no existe, nada cambia.
pub open spec fn track_edited(
    a: SequencerState,
    b: SequencerState,
    track: int,
    f: spec_fn(Track, Track) -> bool,
) -> bool {
    if 0 <= track < a.pattern.tracks@.len() {
        &&& same_but_pattern(a, b)
        &&& only_track_changed(a.pattern, b.pattern, track)
        &&& f(a.pattern.tracks@[track], b.pattern.tracks@[track])
    } else {
        b == a
    }
}

/// Toggle de un paso en modo manual (en modo euclidiano la grilla la define
/// E(k,n) y el toque se ignora; un paso fuera de la grilla también).
pub open spec fn step_toggled(t: Track, u: Track, step: int) -> bool {
    if t.mode == StepMode::Manual && 0 <= step < t.steps@.len() {
        &&& same_track_settings(t, u)
        &&& u.steps@ == t.steps@.update(step, Step { on: !t.steps@[step].on, ..t.steps@[step] })
    } else {
        u == t
    }
}

/// Paso reemplazado (si existe en la grilla).
pub open spec fn step_set(t: Track, u: Track, step: int, s: Step) -> bool {
    if 0 <= step < t.steps@.len() {
        &&& same_track_settings(t, u)
        &&& u.steps@ == t.steps@.update(step, s)
    } else {
        u == t
    }
}

impl Sequencer {
    pub fn new() -> (s: Self)
        ensures
            s@ == initial_state(s@.pattern),
            is_starter(s@.pattern),
            s@.pattern.wf(),
    {
        Self::with_pattern(Pattern::starter())
    }

    pub fn with_pattern(pattern: Pattern) -> (s: Self)
        ensures
            s@ == initial_state(pattern),
    {
        Sequencer {
            pattern,
            clock_source: ClockSource::Internal,
            transport: Transport::Stopped,
            tick: 0,
            tick_scheduled: false,
            pending_offs: Vec::new(),
            start_pending: false,
            stop_pending: false,
            stop_sends_msg: false,
            parser: MidiParser::new(),
            selected_track: 0,
        }
    }

    pub fn clock_source(&self) -> (c: ClockSource)
        ensures
            c == self@.clock_source,
    {
        self.clock_source
    }

    pub fn transport(&self) -> (t: Transport)
        ensures
            t == self@.transport,
    {
        self.transport
    }

    /// Próximo tick a disparar.
    pub fn tick(&self) -> (t: u32)
        ensures
            t == self@.tick,
    {
        self.tick
    }

    pub fn set_clock_source(&mut self, src: ClockSource)
        ensures
            final(self)@ == clock_source_set(old(self)@, src),
    {
        let same = match (src, self.clock_source) {
            (ClockSource::Internal, ClockSource::Internal) => true,
            (ClockSource::External, ClockSource::External) => true,
            _ => false,
        };
        if same {
            return;
        }
        // Cambiar de fuente no permite seguir tickeando en la fuente vieja
        // para terminar el paso prolijamente: corte inmediato.
        self.force_stop();
        self.clock_source = src;
    }

    pub fn play(&mut self)
        ensures
            final(self)@ == played(old(self)@),
    {
        self.transport = Transport::Playing;
        self.tick = 0;
        self.pending_offs.clear();
        self.tick_scheduled = false;
        self.start_pending = true;
        self.stop_pending = false;
        self.stop_sends_msg = false;
    }

    /// Primer toque: si hay una nota sonando, la deja terminar su gate y
    /// no dispara el próximo paso (corte prolijo). Segundo toque mientras
    /// se está apagando: silencio general inmediato.
    pub fn stop(&mut self)
        ensures
            final(self)@ == stop_pressed(old(self)@),
    {
        match self.transport {
            Transport::Stopped => {},
            Transport::Stopping => self.force_stop(),
            Transport::Playing => {
                self.start_pending = false;
                if self.pending_offs.len() == 0 {
                    self.force_stop();
                } else {
                    self.transport = Transport::Stopping;
                }
            },
        }
    }

    /// Corte inmediato: apaga todo lo que esté sonando ya mismo y envía el
    /// Stop de transporte (si somos master). Usado por el doble toque de
    /// Stop y por cualquier cambio que no pueda esperar (p. ej. cambiar la
    /// fuente de reloj).
    fn force_stop(&mut self)
        ensures
            final(self)@ == force_stopped(old(self)@),
    {
        let stopped = match self.transport {
            Transport::Stopped => true,
            _ => false,
        };
        if !stopped || self.pending_offs.len() > 0 {
            self.stop_pending = true;
            let master = match self.clock_source {
                ClockSource::Internal => true,
                ClockSource::External => false,
            };
            if master {
                self.stop_sends_msg = true;
            }
        }
        self.transport = Transport::Stopped;
        self.start_pending = false;
        self.tick_scheduled = false;
    }

    pub fn toggle_step(&mut self, track: usize, step: usize)
        ensures
            track_edited(
                old(self)@,
                final(self)@,
                track as int,
                |t: Track, u: Track| step_toggled(t, u, step as int),
            ),
    {
        if track < self.pattern.tracks.len() {
            let manual = match self.pattern.tracks[track].mode {
                StepMode::Manual => true,
                StepMode::Euclidean { .. } => false,
            };
            // En modo euclidiano la grilla la define E(k,n), no la mano.
            if manual && step < self.pattern.tracks[track].steps.len() {
                let mut s = self.pattern.tracks[track].steps[step];
                s.on = !s.on;
                self.pattern.tracks[track].steps.set(step, s);
            }
            assert(self.pattern.tracks@ =~= old(self).pattern.tracks@.update(
                track as int,
                self.pattern.tracks@[track as int],
            ));
        }
    }
}

/// Mute invertido; las notas ya disparadas apagan normalmente.
pub open spec fn mute_toggled(t: Track, u: Track) -> bool {
    &&& u.muted == !t.muted
    &&& u.channel == t.channel
    &&& u.len == t.len
    &&& u.mode == t.mode
    &&& u.steps == t.steps
}

/// Canal del track cambiado (enmascarado a 0-15).
pub open spec fn channel_set(t: Track, u: Track, channel: u8) -> bool {
    &&& u.channel == channel & 0x0F
    &&& u.muted == t.muted
    &&& u.len == t.len
    &&& u.mode == t.mode
    &&& u.steps == t.steps
}

/// Nota de todos los pasos del track cambiada (enmascarada a 0-127).
pub open spec fn note_set(t: Track, u: Track, note: u8) -> bool {
    &&& same_track_settings(t, u)
    &&& u.steps@.len() == t.steps@.len()
    &&& forall|j: int|
        0 <= j < t.steps@.len() ==> u.steps@[j] == (Step { note: note & 0x7F, ..t.steps@[j] })
}

/// Modo de canales con el canal único enmascarado a 0-15.
pub open spec fn masked_channel_mode(mode: ChannelMode) -> ChannelMode {
    match mode {
        ChannelMode::Single(ch) => ChannelMode::Single(ch & 0x0F),
        ChannelMode::PerTrack => ChannelMode::PerTrack,
    }
}

/// Efecto de un evento de entrada sobre el estado (el tempo lo maneja la
/// capa de tiempo).
pub open spec fn input_applied(a: SequencerState, b: SequencerState, ev: InputEvent) -> bool {
    match ev {
        InputEvent::ButtonDown(Button::Play) => b == played(a),
        InputEvent::ButtonDown(Button::Stop) => b == stop_pressed(a),
        InputEvent::ButtonDown(Button::Step(n)) => track_edited(
            a,
            b,
            a.selected_track as int,
            |t: Track, u: Track| step_toggled(t, u, n as int),
        ),
        InputEvent::ButtonDown(Button::TrackSelect(n)) => if (n as int) < a.pattern.tracks@.len() {
            b == SequencerState { selected_track: n as usize, ..a }
        } else {
            b == a
        },
        _ => b == a,
    }
}

impl Sequencer {
    /// Activa modo euclidiano en el track: E(pulses, steps) regenera la grilla.
    pub fn set_track_euclidean(&mut self, track: usize, pulses: u8, steps: u8)
        ensures
            track_edited(
                old(self)@,
                final(self)@,
                track as int,
                |t: Track, u: Track| euclid_applied(t, u, pulses, steps),
            ),
    {
        if track < self.pattern.tracks.len() {
            self.pattern.tracks[track].apply_euclidean(pulses, steps);
            assert(self.pattern.tracks@ =~= old(self).pattern.tracks@.update(
                track as int,
                self.pattern.tracks@[track as int],
            ));
        }
    }

    /// Vuelve el track a edición manual (conserva la grilla generada).
    pub fn set_track_manual(&mut self, track: usize)
        ensures
            track_edited(
                old(self)@,
                final(self)@,
                track as int,
                |t: Track, u: Track| manual_restored(t, u),
            ),
    {
        if track < self.pattern.tracks.len() {
            self.pattern.tracks[track].set_manual();
            assert(self.pattern.tracks@ =~= old(self).pattern.tracks@.update(
                track as int,
                self.pattern.tracks@[track as int],
            ));
        }
    }

    /// Mutea/desmutea el track. Las notas ya disparadas apagan normalmente
    /// (sus note-offs siguen agendados).
    pub fn toggle_track_mute(&mut self, track: usize)
        ensures
            track_edited(old(self)@, final(self)@, track as int, |t: Track, u: Track| mute_toggled(t, u)),
    {
        if track < self.pattern.tracks.len() {
            let m = self.pattern.tracks[track].muted;
            self.pattern.tracks[track].muted = !m;
            assert(self.pattern.tracks@ =~= old(self).pattern.tracks@.update(
                track as int,
                self.pattern.tracks@[track as int],
            ));
        }
    }

    pub fn set_step(&mut self, track: usize, step: usize, s: Step)
        ensures
            track_edited(
                old(self)@,
                final(self)@,
                track as int,
                |t: Track, u: Track| step_set(t, u, step as int, s),
            ),
    {
        if track < self.pattern.tracks.len() {
            if step < self.pattern.tracks[track].steps.len() {
                self.pattern.tracks[track].steps.set(step, s);
            }
            assert(self.pattern.tracks@ =~= old(self).pattern.tracks@.update(
                track as int,
                self.pattern.tracks@[track as int],
            ));
        }
    }

    /// Canal MIDI 0-15. Las notas ya sonando apagan en el canal viejo
    /// (los note-offs pendientes guardan su canal).
    pub fn set_track_channel(&mut self, track: usize, channel: u8)
        ensures
            track_edited(
                old(self)@,
                final(self)@,
                track as int,
                |t: Track, u: Track| channel_set(t, u, channel),
            ),
    {
        if track < self.pattern.tracks.len() {
            self.pattern.tracks[track].channel = channel & 0x0F;
            assert(self.pattern.tracks@ =~= old(self).pattern.tracks@.update(
                track as int,
                self.pattern.tracks@[track as int],
            ));
        }
    }

    /// Cambia la nota de todos los pasos del track (lane estilo drum machine).
    pub fn set_track_note(&mut self, track: usize, note: u8)
        ensures
            track_edited(old(self)@, final(self)@, track as int, |t: Track, u: Track| note_set(t, u, note)),
    {
        if track < self.pattern.tracks.len() {
            let n = self.pattern.tracks[track].steps.len();
            let mut j: usize = 0;
            assert(self.pattern.tracks@ =~= old(self).pattern.tracks@.update(
                track as int,
                self.pattern.tracks@[track as int],
            ));
            while j < n
                invariant
                    track < self.pattern.tracks@.len(),
                    self.pattern.tracks@.len() == old(self).pattern.tracks@.len(),
                    same_but_pattern(old(self)@, self@),
                    only_track_changed(old(self).pattern, self.pattern, track as int),
                    same_track_settings(
                        old(self).pattern.tracks@[track as int],
                        self.pattern.tracks@[track as int],
                    ),
                    n == old(self).pattern.tracks@[track as int].steps@.len(),
                    self.pattern.tracks@[track as int].steps@.len() == n,
                    j <= n,
                    forall|i: int|
                        0 <= i < j ==> self.pattern.tracks@[track as int].steps@[i] == (Step {
                            note: note & 0x7F,
                            ..old(self).pattern.tracks@[track as int].steps@[i]
                        }),
                    forall|i: int|
                        j <= i < n ==> self.pattern.tracks@[track as int].steps@[i]
                            == old(self).pattern.tracks@[track as int].steps@[i],
                decreases n - j,
            {
                let ghost prev = self.pattern.tracks@;
                let mut s = self.pattern.tracks[track].steps[j];
                s.note = note & 0x7F;
                self.pattern.tracks[track].steps.set(j, s);
                assert(self.pattern.tracks@ =~= prev.update(
                    track as int,
                    self.pattern.tracks@[track as int],
                ));
                j = j + 1;
                assert(self.pattern.tracks@ =~= old(self).pattern.tracks@.update(
                    track as int,
                    self.pattern.tracks@[track as int],
                ));
            }
        }
    }

    pub fn set_channel_mode(&mut self, mode: ChannelMode)
        ensures
            same_but_pattern(old(self)@, final(self)@),
            final(self)@.pattern.tracks == old(self)@.pattern.tracks,
            final(self)@.pattern.ticks_per_step == old(self)@.pattern.ticks_per_step,
            final(self)@.pattern.channel_mode == masked_channel_mode(mode),
    {
        self.pattern.channel_mode = match mode {
            ChannelMode::Single(ch) => ChannelMode::Single(ch & 0x0F),
            ChannelMode::PerTrack => ChannelMode::PerTrack,
        };
    }

    /// Acceso directo al patrón (por ejemplo para editar gates).
    pub fn pattern_mut(&mut self) -> (p: &mut Pattern)
        ensures
            *p == old(self)@.pattern,
            same_but_pattern(old(self)@, final(self)@),
            final(self)@.pattern == *final(p),
    {
        &mut self.pattern
    }

    /// Aplica un evento de la UI. Devuelve Some(delta) cuando el evento es un
    /// giro del encoder de tempo: el tempo lo ajusta la capa de tiempo.
    pub fn handle_input(&mut self, ev: InputEvent) -> (tempo_delta: Option<i32>)
        ensures
            input_applied(old(self)@, final(self)@, ev),
            tempo_delta == match ev {
                InputEvent::EncoderDelta(d) => Some(d),
                _ => None::<i32>,
            },
    {
        match ev {
            InputEvent::ButtonDown(Button::Play) => self.play(),
            InputEvent::ButtonDown(Button::Stop) => self.stop(),
            InputEvent::ButtonDown(Button::Step(n)) => {
                let track = self.selected_track;
                self.toggle_step(track, n as usize)
            },
            InputEvent::ButtonDown(Button::TrackSelect(n)) => {
                if (n as usize) < self.pattern.tracks.len() {
                    self.selected_track = n as usize;
                }
            },
            InputEvent::EncoderDelta(d) => {
                return Some(d);
            },
            _ => {},
        }
        None
    }
}

// ── Ticks de reloj ───────────────────────────────────────────────────────

/// Note-offs que vencen en `tick`, en el orden en que fueron agendados.
pub open spec fn released(ps: Seq<PendingOff>, tick: u32) -> Seq<PendingOff>
    decreases ps.len(),
{
    if ps.len() == 0 {
        Seq::empty()
    } else {
        released(ps.drop_last(), tick) + if ps.last().due_tick <= tick {
            seq![ps.last()]
        } else {
            Seq::empty()
        }
    }
}

/// Note-offs que siguen agendados después de `tick`, en orden.
pub open spec fn held(ps: Seq<PendingOff>, tick: u32) -> Seq<PendingOff>
    decreases ps.len(),
{
    if ps.len() == 0 {
        Seq::empty()
    } else {
        held(ps.drop_last(), tick) + if ps.last().due_tick <= tick {
            Seq::empty()
        } else {
            seq![ps.last()]
        }
    }
}

pub open spec fn offs_msgs(ps: Seq<PendingOff>, at_us: u64) -> Seq<TimedMidi> {
    ps.map_values(|p: PendingOff| note_off_msg(at_us, p.channel, p.note))
}

pub open spec fn ons_msgs(evs: Seq<NoteEvent>, at_us: u64) -> Seq<TimedMidi> {
    evs.map_values(|e: NoteEvent| note_on_msg(at_us, e.channel, e.note, e.velocity))
}

/// Note-offs agendados para las notas disparadas en `tick`.
pub open spec fn new_offs(evs: Seq<NoteEvent>, tick: u32) -> Seq<PendingOff> {
    evs.map_values(
        |e: NoteEvent| PendingOff { due_tick: (tick + e.gate_ticks) as u32, channel: e.channel, note: e.note },
    )
}

/// Notas que dispara el tick actual: solo en Playing (en Stopping solo se
/// dejan terminar las notas en curso).
pub open spec fn fired(s: SequencerState) -> Seq<NoteEvent> {
    if s.transport == Transport::Playing {
        events_at_tick(s.pattern, s.tick)
    } else {
        Seq::empty()
    }
}

/// Mensajes de un tick: 0xF8 si somos master, los note-offs vencidos y los
/// note-ons del tick.
pub open spec fn tick_output(s: SequencerState, at_us: u64, send_clock: bool) -> Seq<TimedMidi> {
    (if send_clock {
        seq![realtime_msg(at_us, MIDI_CLOCK)]
    } else {
        Seq::empty()
    }) + offs_msgs(released(s.pending_offs, s.tick), at_us) + ons_msgs(fired(s), at_us)
}

/// Estado tras un tick.
pub open spec fn ticked(s: SequencerState) -> SequencerState {
    SequencerState {
        pending_offs: held(s.pending_offs, s.tick) + new_offs(fired(s), s.tick),
        tick: (s.tick + 1) as u32,
        ..s
    }
}

/// Un tick es posible: el contador de ticks (u32) tiene lugar para el tick
/// siguiente y para el note-off de cada nota que se dispara, y si el paso
/// se dispara (en Playing) la consulta al patrón está definida.
pub open spec fn can_tick(s: SequencerState) -> bool {
    &&& s.tick < u32::MAX
    &&& s.transport == Transport::Playing ==> events_defined(s.pattern, s.tick)
    &&& forall|j: int|
        0 <= j < fired(s).len() ==> s.tick + (#[trigger] fired(s)[j]).gate_ticks <= u32::MAX
}

/// Resultado de un tick del reloj interno: estado, mensajes y si el corte
/// prolijo terminó (ya no queda nada sonando).
pub open spec fn internal_tick_result(s: SequencerState, at_us: u64) -> (
    SequencerState,
    Seq<TimedMidi>,
    bool,
) {
    let s1 = ticked(s);
    let o = tick_output(s, at_us, true);
    if s1.transport == Transport::Stopping && s1.pending_offs.len() == 0 {
        (
            SequencerState { transport: Transport::Stopped, tick_scheduled: false, ..s1 },
            o.push(realtime_msg(at_us, MIDI_STOP)),
            true,
        )
    } else {
        (s1, o, false)
    }
}

/// Efecto de un Stop pendiente al avanzar: Stop de transporte (si éramos
/// master al cortar) y note-off para todo lo que sonaba.
pub open spec fn pending_stop_emitted(s: SequencerState, now_us: u64) -> (
    SequencerState,
    Seq<TimedMidi>,
) {
    if s.stop_pending {
        (
            SequencerState {
                stop_pending: false,
                stop_sends_msg: false,
                pending_offs: Seq::empty(),
                ..s
            },
            (if s.stop_sends_msg {
                seq![realtime_msg(now_us, MIDI_STOP)]
            } else {
                Seq::empty()
            }) + offs_msgs(s.pending_offs, now_us),
        )
    } else {
        (s, Seq::empty())
    }
}

/// El reloj interno corre.
pub open spec fn internal_clock_running(s: SequencerState) -> bool {
    s.clock_source == ClockSource::Internal && s.transport != Transport::Stopped
}

pub open spec fn wakeup_of(s: SequencerState) -> Wakeup {
    if s.stop_pending || s.start_pending {
        Wakeup::Now
    } else if internal_clock_running(s) && s.tick_scheduled {
        Wakeup::NextTick
    } else {
        Wakeup::Idle
    }
}

// ── Entrada MIDI ─────────────────────────────────────────────────────────

/// Efecto de un byte de entrada MIDI recibido en `now_us`.
pub open spec fn feed_byte(s: SequencerState, b: u8, now_us: u64) -> (
    SequencerState,
    Seq<TimedMidi>,
) {
    let (p, m) = parse_step(s.parser, b);
    let s1 = SequencerState { parser: p, ..s };
    match m {
        None => (s1, Seq::empty()),
        Some(msg) => if s1.clock_source != ClockSource::External {
            (s1, Seq::empty())
        } else if msg.0 == MIDI_START {
            (
                SequencerState {
                    tick: 0,
                    pending_offs: Seq::empty(),
                    transport: Transport::Playing,
                    ..s1
                },
                Seq::empty(),
            )
        } else if msg.0 == MIDI_CONTINUE {
            (SequencerState { transport: Transport::Playing, ..s1 }, Seq::empty())
        } else if msg.0 == MIDI_STOP {
            (
                SequencerState {
                    transport: Transport::Stopped,
                    pending_offs: Seq::empty(),
                    ..s1
                },
                offs_msgs(s1.pending_offs, now_us),
            )
        } else if msg.0 == MIDI_CLOCK && s1.transport != Transport::Stopped {
            let s2 = ticked(s1);
            let o = tick_output(s1, now_us, false);
            if s2.transport == Transport::Stopping && s2.pending_offs.len() == 0 {
                (SequencerState { transport: Transport::Stopped, ..s2 }, o)
            } else {
                (s2, o)
            }
        } else {
            (s1, Seq::empty())
        },
    }
}

/// Efecto de una ráfaga de bytes de entrada, en orden.
pub open spec fn feed_bytes(s: SequencerState, bytes: Seq<u8>, now_us: u64) -> (
    SequencerState,
    Seq<TimedMidi>,
)
    decreases bytes.len(),
{
    if bytes.len() == 0 {
        (s, Seq::empty())
    } else {
        let (s1, o1) = feed_bytes(s, bytes.drop_last(), now_us);
        let (s2, o2) = feed_byte(s1, bytes.last(), now_us);
        (s2, o1 + o2)
    }
}

/// El byte `b` se puede procesar en `s`: solo un 0xF8 que dispara un tick
/// (en modo esclavo, con el transporte en marcha) exige que el tick sea
/// posible.
pub open spec fn byte_ok(s: SequencerState, b: u8) -> bool {
    let (p, m) = parse_step(s.parser, b);
    let s1 = SequencerState { parser: p, ..s };
    match m {
        Some(msg) => (s1.clock_source == ClockSource::External && msg.0 == MIDI_CLOCK
            && s1.transport != Transport::Stopped) ==> can_tick(s1),
        None => true,
    }
}

/// La ráfaga se puede procesar: cada byte cumple `byte_ok` en el estado que
/// dejaron los anteriores.
pub open spec fn can_feed(s: SequencerState, bytes: Seq<u8>, now_us: u64) -> bool
    decreases bytes.len(),
{
    if bytes.len() == 0 {
        true
    } else {
        &&& can_feed(s, bytes.drop_last(), now_us)
        &&& byte_ok(feed_bytes(s, bytes.drop_last(), now_us).0, bytes.last())
    }
}

/// Largo del prefijo más largo de la ráfaga que se puede procesar.
pub open spec fn feedable_len(s: SequencerState, bytes: Seq<u8>, now_us: u64) -> nat
    decreases bytes.len(),
{
    if bytes.len() == 0 || can_feed(s, bytes, now_us) {
        bytes.len()
    } else {
        feedable_len(s, bytes.drop_last(), now_us)
    }
}

/// Todo prefijo de una ráfaga procesable es procesable.
proof fn lemma_can_feed_prefix(s: SequencerState, bytes: Seq<u8>, now_us: u64, k: int)
    requires
        can_feed(s, bytes, now_us),
        0 <= k <= bytes.len(),
    ensures
        can_feed(s, bytes.take(k), now_us),
    decreases bytes.len(),
{
    if k == bytes.len() {
        assert(bytes.take(k) =~= bytes);
    } else {
        lemma_can_feed_prefix(s, bytes.drop_last(), now_us, k);
        assert(bytes.drop_last().take(k) =~= bytes.take(k));
    }
}

/// `feedable_len` es el prefijo procesable más largo.
proof fn lemma_feedable_len(s: SequencerState, bytes: Seq<u8>, now_us: u64)
    ensures
        feedable_len(s, bytes, now_us) <= bytes.len(),
        can_feed(s, bytes.take(feedable_len(s, bytes, now_us) as int), now_us),
        forall|k: int|
            feedable_len(s, bytes, now_us) < k <= bytes.len() ==> !can_feed(
                s,
                #[trigger] bytes.take(k),
                now_us,
            ),
    decreases bytes.len(),
{
    let f = feedable_len(s, bytes, now_us);
    if bytes.len() == 0 || can_feed(s, bytes, now_us) {
        assert(bytes.take(f as int) =~= bytes);
    } else {
        let d = bytes.drop_last();
        lemma_feedable_len(s, d, now_us);
        assert(d.take(f as int) =~= bytes.take(f as int));
        assert forall|k: int| f < k <= bytes.len() implies !can_feed(
            s,
            #[trigger] bytes.take(k),
            now_us,
        ) by {
            if k == bytes.len() {
                assert(bytes.take(k) =~= bytes);
            } else {
                assert(d.take(k) =~= bytes.take(k));
            }
        }
    }
}

// ── Vista ────────────────────────────────────────────────────────────────

/// Paso global desde Start (el del último tick disparado), si está sonando.
pub open spec fn global_step(s: SequencerState) -> Option<nat> {
    if s.transport != Transport::Stopped && s.tick > 0 {
        Some(((s.tick - 1) as u32 / (s.pattern.ticks_per_step as u32)) as nat)
    } else {
        None
    }
}

/// Paso global reducido módulo el largo de un track.
pub open spec fn step_in(g: Option<nat>, len: nat) -> nat {
    match g {
        Some(x) => if len > 0 {
            x % len
        } else {
            0
        },
        None => 0,
    }
}

/// Se puede calcular la vista: grillas consistentes y, si hay un paso en
/// curso, ticks-por-paso distinto de 0.
pub open spec fn can_view(s: SequencerState) -> bool {
    &&& s.pattern.wf()
    &&& !(s.pattern.ticks_per_step == 0 && s.transport != Transport::Stopped && s.tick > 0)
}

pub open spec fn step_viewed(st: Step) -> StepView {
    StepView { on: st.on, note: st.note, velocity: st.velocity }
}

pub open spec fn euclid_view(mode: StepMode) -> Option<EuclideanView> {
    match mode {
        StepMode::Euclidean { pulses, steps } => Some(EuclideanView { pulses, steps }),
        StepMode::Manual => None,
    }
}

/// `tv` muestra el track `t` del estado `s`.
pub open spec fn track_viewed(s: SequencerState, t: Track, tv: TrackView) -> bool {
    &&& tv.channel == t.channel
    &&& tv.muted == t.muted
    &&& tv.note == if t.steps@.len() > 0 {
        t.steps@[0].note
    } else {
        0
    }
    &&& tv.euclidean == euclid_view(t.mode)
    &&& tv.current_step == step_in(global_step(s), t.len as nat)
    &&& tv.steps@.len() == t.len
    &&& forall|j: int| 0 <= j < t.len ==> tv.steps@[j] == step_viewed(t.steps@[j])
}

pub open spec fn single_channel_of(mode: ChannelMode) -> Option<u8> {
    match mode {
        ChannelMode::Single(ch) => Some(ch),
        ChannelMode::PerTrack => None,
    }
}

/// `v` es la vista del estado `s`.
pub open spec fn viewed(s: SequencerState, v: ViewModel) -> bool {
    &&& v.playing == (s.transport != Transport::Stopped)
    &&& v.external_clock == (s.clock_source == ClockSource::External)
    &&& v.single_channel == single_channel_of(s.pattern.channel_mode)
    &&& v.selected_track == s.selected_track
    &&& v.current_step == step_in(
        global_step(s),
        if s.selected_track < s.pattern.tracks@.len() {
            s.pattern.tracks@[s.selected_track as int].len as nat
        } else {
            0
        },
    )
    &&& v.tracks@.len() == s.pattern.tracks@.len()
    &&& forall|i: int|
        0 <= i < s.pattern.tracks@.len() ==> track_viewed(s, s.pattern.tracks@[i], #[trigger] v.tracks@[i])
}

proof fn lemma_released_held_step(ps: Seq<PendingOff>, tick: u32, i: int)
    requires
        0 <= i < ps.len(),
    ensures
        released(ps.take(i + 1), tick) == released(ps.take(i), tick) + if ps[i].due_tick <= tick {
            seq![ps[i]]
        } else {
            Seq::empty()
        },
        held(ps.take(i + 1), tick) == held(ps.take(i), tick) + if ps[i].due_tick <= tick {
            Seq::empty()
        } else {
            seq![ps[i]]
        },
{
    assert(ps.take(i + 1).drop_last() =~= ps.take(i));
}

impl Sequencer {
    /// Un tick de reloj (interno o externo): note-offs vencidos, note-ons del
    /// tick, y 0xF8 si actuamos de master.
    fn on_tick(&mut self, at_us: u64, send_clock: bool, out: &mut Vec<TimedMidi>)
        requires
            can_tick(old(self)@),
        ensures
            final(out)@ == old(out)@ + tick_output(old(self)@, at_us, send_clock),
            final(self)@ == ticked(old(self)@),
    {
        let ghost s0 = self@;
        let ghost base = out@;
        if send_clock {
            out.push(TimedMidi::realtime(at_us, MIDI_CLOCK));
        }
        let ghost base2 = out@;
        let tick = self.tick;
        let mut kept: Vec<PendingOff> = Vec::new();
        let n = self.pending_offs.len();
        let mut i: usize = 0;
        while i < n
            invariant
                self@ == s0,
                tick == s0.tick,
                n == s0.pending_offs.len(),
                i <= n,
                out@ == base2 + offs_msgs(released(s0.pending_offs.take(i as int), tick), at_us),
                kept@ == held(s0.pending_offs.take(i as int), tick),
            decreases n - i,
        {
            let p = self.pending_offs[i];
            proof {
                lemma_released_held_step(s0.pending_offs, tick, i as int);
            }
            if p.due_tick <= tick {
                out.push(TimedMidi::note_off(at_us, p.channel, p.note));
            } else {
                kept.push(p);
            }
            i = i + 1;
            assert(out@ =~= base2 + offs_msgs(released(s0.pending_offs.take(i as int), tick), at_us));
        }
        assert(s0.pending_offs.take(n as int) =~= s0.pending_offs);
        self.pending_offs = kept;
        let ghost base3 = out@;
        let ghost kept_view = self.pending_offs@;
        // En modo Stopping no se dispara el próximo paso: solo se dejan
        // terminar las notas ya en curso.
        let playing = match self.transport {
            Transport::Playing => true,
            _ => false,
        };
        if playing {
            let mut evs: Vec<NoteEvent> = Vec::new();
            self.pattern.events_at(tick, &mut evs);
            assert(evs@ =~= fired(s0));
            let m = evs.len();
            let mut j: usize = 0;
            while j < m
                invariant
                    m == evs@.len(),
                    evs@ == fired(s0),
                    tick == s0.tick,
                    forall|k: int| 0 <= k < m ==> tick + (#[trigger] evs@[k]).gate_ticks <= u32::MAX,
                    j <= m,
                    out@ == base3 + ons_msgs(evs@.take(j as int), at_us),
                    self.pending_offs@ == kept_view + new_offs(evs@.take(j as int), tick),
                    self.pattern == s0.pattern,
                    self.transport == s0.transport,
                    self.clock_source == s0.clock_source,
                    self.tick == s0.tick,
                    self.tick_scheduled == s0.tick_scheduled,
                    self.start_pending == s0.start_pending,
                    self.stop_pending == s0.stop_pending,
                    self.stop_sends_msg == s0.stop_sends_msg,
                    self.parser@ == s0.parser,
                    self.selected_track == s0.selected_track,
                decreases m - j,
            {
                let ev = evs[j];
                out.push(TimedMidi::note_on(at_us, ev.channel, ev.note, ev.velocity));
                self.pending_offs.push(
                    PendingOff {
                        due_tick: tick + ev.gate_ticks as u32,
                        channel: ev.channel,
                        note: ev.note,
                    },
                );
                j = j + 1;
                assert(evs@.take(j as int).drop_last() =~= evs@.take(j - 1));
                assert(out@ =~= base3 + ons_msgs(evs@.take(j as int), at_us));
                assert(self.pending_offs@ =~= kept_view + new_offs(evs@.take(j as int), tick));
            }
            assert(evs@.take(m as int) =~= evs@);
        } else {
            assert(ons_msgs(fired(s0), at_us) =~= Seq::<TimedMidi>::empty());
            assert(new_offs(fired(s0), tick) =~= Seq::<PendingOff>::empty());
        }
        self.tick = tick + 1;
        assert(out@ =~= base + tick_output(s0, at_us, send_clock));
        assert(self@.pending_offs =~= ticked(s0).pending_offs);
    }
}

impl Sequencer {
    fn flush_pending_offs(&mut self, at_us: u64, out: &mut Vec<TimedMidi>)
        ensures
            final(out)@ == old(out)@ + offs_msgs(old(self)@.pending_offs, at_us),
            final(self)@ == (SequencerState { pending_offs: Seq::empty(), ..old(self)@ }),
    {
        let ghost base = out@;
        let ghost ps = self.pending_offs@;
        let n = self.pending_offs.len();
        let mut i: usize = 0;
        while i < n
            invariant
                n == ps.len(),
                self.pending_offs@ == ps,
                i <= n,
                out@ == base + offs_msgs(ps.take(i as int), at_us),
            decreases n - i,
        {
            let p = self.pending_offs[i];
            out.push(TimedMidi::note_off(at_us, p.channel, p.note));
            i = i + 1;
            assert(ps.take(i as int).drop_last() =~= ps.take(i - 1));
            assert(out@ =~= base + offs_msgs(ps.take(i as int), at_us));
        }
        assert(ps.take(n as int) =~= ps);
        self.pending_offs.clear();
    }

    /// Primer paso de un avance: si hay un Stop pendiente, lo emite (0xFC si
    /// éramos master al cortar) junto con el note-off de todo lo que sonaba.
    pub fn emit_pending_stop(&mut self, now_us: u64, out: &mut Vec<TimedMidi>)
        ensures
            final(self)@ == pending_stop_emitted(old(self)@, now_us).0,
            final(out)@ == old(out)@ + pending_stop_emitted(old(self)@, now_us).1,
    {
        if self.stop_pending {
            self.stop_pending = false;
            if self.stop_sends_msg {
                self.stop_sends_msg = false;
                out.push(TimedMidi::realtime(now_us, MIDI_STOP));
            }
            self.flush_pending_offs(now_us, out);
        }
    }

    /// El reloj interno corre (somos master y no estamos detenidos).
    pub fn internal_clock_running(&self) -> (r: bool)
        ensures
            r == internal_clock_running(self@),
    {
        let internal = match self.clock_source {
            ClockSource::Internal => true,
            ClockSource::External => false,
        };
        let stopped = match self.transport {
            Transport::Stopped => true,
            _ => false,
        };
        internal && !stopped
    }

    /// Si hay un Start pendiente lo emite en `now_us` y ancla el reloj: el
    /// primer tick cae en `now_us`. Devuelve si ancló.
    pub fn take_start(&mut self, now_us: u64, out: &mut Vec<TimedMidi>) -> (anchored: bool)
        ensures
            anchored == old(self)@.start_pending,
            anchored ==> final(self)@ == (SequencerState {
                start_pending: false,
                tick_scheduled: true,
                ..old(self)@
            }) && final(out)@ == old(out)@.push(realtime_msg(now_us, MIDI_START)),
            !anchored ==> final(self)@ == old(self)@ && final(out)@ == old(out)@,
    {
        if self.start_pending {
            self.start_pending = false;
            out.push(TimedMidi::realtime(now_us, MIDI_START));
            self.tick_scheduled = true;
            true
        } else {
            false
        }
    }

    /// El reloj interno tiene anclado el instante del próximo tick.
    pub fn tick_scheduled(&self) -> (r: bool)
        ensures
            r == self@.tick_scheduled,
    {
        self.tick_scheduled
    }

    /// ¿Se puede disparar un tick ahora? (ver `can_tick`).
    pub fn can_tick(&self) -> (ok: bool)
        ensures
            ok == can_tick(self@),
    {
        let playing = match self.transport {
            Transport::Playing => true,
            _ => false,
        };
        if self.tick == u32::MAX {
            return false;
        }
        if !playing {
            assert(fired(self@) =~= Seq::<NoteEvent>::empty());
            return true;
        }
        if !self.pattern.events_defined_at(self.tick) {
            return false;
        }
        let mut evs: Vec<NoteEvent> = Vec::new();
        self.pattern.events_at(self.tick, &mut evs);
        assert(evs@ =~= fired(self@));
        let room: u32 = u32::MAX - self.tick;
        let mut j: usize = 0;
        while j < evs.len()
            invariant
                evs@ == fired(self@),
                room == u32::MAX - self@.tick,
                j <= evs@.len(),
                forall|k: int| 0 <= k < j ==> self@.tick + (#[trigger] evs@[k]).gate_ticks <= u32::MAX,
            decreases evs@.len() - j,
        {
            if evs[j].gate_ticks as u32 > room {
                return false;
            }
            j = j + 1;
        }
        true
    }

    /// Tick del reloj interno en el instante `at_us`. Devuelve true si con
    /// este tick terminó el corte prolijo (se emitió 0xFC y el reloj se
    /// desancló).
    pub fn internal_tick(&mut self, at_us: u64, out: &mut Vec<TimedMidi>) -> (done: bool)
        requires
            can_tick(old(self)@),
        ensures
            (final(self)@, final(out)@, done) == ({
                let r = internal_tick_result(old(self)@, at_us);
                (r.0, old(out)@ + r.1, r.2)
            }),
    {
        self.on_tick(at_us, true, out);
        let stopping = match self.transport {
            Transport::Stopping => true,
            _ => false,
        };
        if stopping && self.pending_offs.len() == 0 {
            // Ya no queda nada sonando: recién ahora cortamos.
            self.transport = Transport::Stopped;
            self.tick_scheduled = false;
            out.push(TimedMidi::realtime(at_us, MIDI_STOP));
            true
        } else {
            false
        }
    }

    /// Qué hay agendado (para que el firmware pueda dormir con precisión).
    pub fn wakeup(&self) -> (w: Wakeup)
        ensures
            w == wakeup_of(self@),
    {
        if self.stop_pending || self.start_pending {
            Wakeup::Now
        } else if self.internal_clock_running() && self.tick_scheduled {
            Wakeup::NextTick
        } else {
            Wakeup::Idle
        }
    }
}

fn step_in_exec(g: Option<u32>, len: usize) -> (r: usize)
    ensures
        r == step_in(
            match g {
                Some(x) => Some(x as nat),
                None => None,
            },
            len as nat,
        ),
{
    match g {
        Some(x) => if len > 0 {
            (x as usize) % len
        } else {
            0
        },
        None => 0,
    }
}

impl Sequencer {
    /// Un byte de entrada MIDI (ver `feed_byte`).
    fn feed_one(&mut self, b: u8, now_us: u64, out: &mut Vec<TimedMidi>)
        requires
            byte_ok(old(self)@, b),
        ensures
            final(self)@ == feed_byte(old(self)@, b, now_us).0,
            final(out)@ == old(out)@ + feed_byte(old(self)@, b, now_us).1,
    {
        let ghost s0 = self@;
        let ghost base = out@;
        let r = self.parser.feed(b);
        let ghost s1 = SequencerState { parser: self.parser@, ..s0 };
        assert(self@ == s1);
        match r {
            None => {},
            Some((status, _d1, _d2)) => {
                let external = match self.clock_source {
                    ClockSource::External => true,
                    ClockSource::Internal => false,
                };
                if external {
                    if status == MIDI_START {
                        self.tick = 0;
                        self.pending_offs.clear();
                        self.transport = Transport::Playing;
                    } else if status == MIDI_CONTINUE {
                        self.transport = Transport::Playing;
                    } else if status == MIDI_STOP {
                        self.transport = Transport::Stopped;
                        self.flush_pending_offs(now_us, out);
                    } else if status == MIDI_CLOCK {
                        let stopped = match self.transport {
                            Transport::Stopped => true,
                            _ => false,
                        };
                        if !stopped {
                            // Como esclavo no re-emitimos 0xF8.
                            self.on_tick(now_us, false, out);
                            let stopping = match self.transport {
                                Transport::Stopping => true,
                                _ => false,
                            };
                            if stopping && self.pending_offs.len() == 0 {
                                self.transport = Transport::Stopped;
                            }
                        }
                    }
                }
            },
        }
        assert(out@ =~= base + feed_byte(s0, b, now_us).1);
    }

    /// ¿Se puede procesar el byte `b` ahora? (ver `byte_ok`).
    pub fn can_feed_byte(&self, b: u8) -> (ok: bool)
        ensures
            ok == byte_ok(self@, b),
    {
        let ghost s1 = SequencerState { parser: parse_step(self@.parser, b).0, ..self@ };
        assert(fired(s1) == fired(self@));
        assert(can_tick(s1) == can_tick(self@));
        match self.parser.peek(b) {
            None => true,
            Some((status, _d1, _d2)) => {
                let external = match self.clock_source {
                    ClockSource::External => true,
                    ClockSource::Internal => false,
                };
                let stopped = match self.transport {
                    Transport::Stopped => true,
                    _ => false,
                };
                if external && status == MIDI_CLOCK && !stopped {
                    self.can_tick()
                } else {
                    true
                }
            },
        }
    }

    /// Entrada MIDI cruda. Parsea bytes; en modo External, los mensajes de
    /// reloj/transporte (0xF8/0xFA/0xFB/0xFC) manejan el secuenciador y las
    /// notas resultantes salen estampadas con `now_us`.
    pub fn feed_midi_in(&mut self, bytes: &[u8], now_us: u64, out: &mut Vec<TimedMidi>)
        requires
            can_feed(old(self)@, bytes@, now_us),
        ensures
            final(self)@ == feed_bytes(old(self)@, bytes@, now_us).0,
            final(out)@ == old(out)@ + feed_bytes(old(self)@, bytes@, now_us).1,
    {
        let ghost s0 = self@;
        let ghost base = out@;
        let n = bytes.len();
        let mut i: usize = 0;
        while i < n
            invariant
                n == bytes@.len(),
                i <= n,
                can_feed(s0, bytes@, now_us),
                self@ == feed_bytes(s0, bytes@.take(i as int), now_us).0,
                out@ == base + feed_bytes(s0, bytes@.take(i as int), now_us).1,
            decreases n - i,
        {
            proof {
                lemma_can_feed_prefix(s0, bytes@, now_us, i + 1);
                assert(bytes@.take(i + 1).drop_last() =~= bytes@.take(i as int));
            }
            self.feed_one(bytes[i], now_us, out);
            i = i + 1;
            assert(out@ =~= base + feed_bytes(s0, bytes@.take(i as int), now_us).1);
        }
        assert(bytes@.take(n as int) =~= bytes@);
    }

    /// Como `feed_midi_in`, pero comprobando cada byte antes de procesarlo:
    /// procesa en orden el prefijo más largo que se puede procesar y
    /// devuelve si la ráfaga entera lo era.
    pub fn feed_midi_in_checked(&mut self, bytes: &[u8], now_us: u64, out: &mut Vec<TimedMidi>) -> (ok:
        bool)
        ensures
            ok == can_feed(old(self)@, bytes@, now_us),
            final(self)@ == feed_bytes(
                old(self)@,
                bytes@.take(feedable_len(old(self)@, bytes@, now_us) as int),
                now_us,
            ).0,
            final(out)@ == old(out)@ + feed_bytes(
                old(self)@,
                bytes@.take(feedable_len(old(self)@, bytes@, now_us) as int),
                now_us,
            ).1,
    {
        let ghost s0 = self@;
        let ghost base = out@;
        proof {
            lemma_feedable_len(s0, bytes@, now_us);
        }
        let n = bytes.len();
        let mut i: usize = 0;
        while i < n
            invariant
                n == bytes@.len(),
                i <= n,
                s0 == old(self)@,
                base == old(out)@,
                can_feed(s0, bytes@.take(i as int), now_us),
                feedable_len(s0, bytes@, now_us) >= i,
                feedable_len(s0, bytes@, now_us) <= n,
                can_feed(s0, bytes@.take(feedable_len(s0, bytes@, now_us) as int), now_us),
                forall|k: int|
                    feedable_len(s0, bytes@, now_us) < k <= n ==> !can_feed(
                        s0,
                        #[trigger] bytes@.take(k),
                        now_us,
                    ),
                self@ == feed_bytes(s0, bytes@.take(i as int), now_us).0,
                out@ == base + feed_bytes(s0, bytes@.take(i as int), now_us).1,
            decreases n - i,
        {
            proof {
                assert(bytes@.take(i + 1).drop_last() =~= bytes@.take(i as int));
            }
            if !self.can_feed_byte(bytes[i]) {
                proof {
                    let f = feedable_len(s0, bytes@, now_us);
                    assert(!can_feed(s0, bytes@.take(i + 1), now_us));
                    if f > i {
                        lemma_can_feed_prefix(s0, bytes@.take(f as int), now_us, i + 1);
                        assert(bytes@.take(f as int).take(i + 1) =~= bytes@.take(i + 1));
                    }
                    lemma_can_feed_prefix(s0, bytes@.take(f as int), now_us, f as int);
                    assert(f == i);
                    if can_feed(s0, bytes@, now_us) {
                        lemma_can_feed_prefix(s0, bytes@, now_us, i + 1);
                    }
                }
                return false;
            }
            self.feed_one(bytes[i], now_us, out);
            i = i + 1;
            assert(out@ =~= base + feed_bytes(s0, bytes@.take(i as int), now_us).1);
        }
        proof {
            assert(bytes@.take(n as int) =~= bytes@);
        }
        true
    }

    pub fn view_model(&self) -> (v: ViewModel)
        requires
            can_view(self@),
        ensures
            viewed(self@, v),
    {
        let tps = self.pattern.ticks_per_step as u32;
        let stopped = match self.transport {
            Transport::Stopped => true,
            _ => false,
        };
        // Paso global desde Start; cada track lo reduce módulo su propio largo.
        let global: Option<u32> = if !stopped && self.tick > 0 {
            Some((self.tick - 1) / tps)
        } else {
            None
        };
        let ghost g = match global {
            Some(x) => Some(x as nat),
            None => None,
        };
        assert(g == global_step(self@));
        let sel_len = if self.selected_track < self.pattern.tracks.len() {
            self.pattern.tracks[self.selected_track].len
        } else {
            0
        };
        let current_step = step_in_exec(global, sel_len);
        let n = self.pattern.tracks.len();
        let mut tracks: Vec<TrackView> = Vec::new();
        let mut i: usize = 0;
        while i < n
            invariant
                n == self.pattern.tracks@.len(),
                self.pattern.wf(),
                g == global_step(self@),
                g == match global {
                    Some(x) => Some(x as nat),
                    None => None,
                },
                i <= n,
                tracks@.len() == i,
                forall|k: int|
                    0 <= k < i ==> track_viewed(self@, self.pattern.tracks@[k], #[trigger] tracks@[k]),
            decreases n - i,
        {
            let t = &self.pattern.tracks[i];
            assert(t.wf());
            let mut steps: Vec<StepView> = Vec::new();
            let mut j: usize = 0;
            while j < t.len
                invariant
                    t.len <= t.steps@.len(),
                    j <= t.len,
                    steps@.len() == j,
                    forall|k: int| 0 <= k < j ==> steps@[k] == step_viewed(t.steps@[k]),
                decreases t.len - j,
            {
                let st = t.steps[j];
                steps.push(StepView { on: st.on, note: st.note, velocity: st.velocity });
                j = j + 1;
            }
            let note = if t.steps.len() > 0 {
                t.steps[0].note
            } else {
                0
            };
            let euclidean = match t.mode {
                StepMode::Euclidean { pulses, steps } => Some(EuclideanView { pulses, steps }),
                StepMode::Manual => None,
            };
            tracks.push(
                TrackView {
                    channel: t.channel,
                    muted: t.muted,
                    note,
                    euclidean,
                    current_step: step_in_exec(global, t.len),
                    steps,
                },
            );
            i = i + 1;
        }
        ViewModel {
            playing: !stopped,
            external_clock: match self.clock_source {
                ClockSource::External => true,
                ClockSource::Internal => false,
            },
            single_channel: match self.pattern.channel_mode {
                ChannelMode::Single(ch) => Some(ch),
                ChannelMode::PerTrack => None,
            },
            current_step,
            selected_track: self.selected_track,
            tracks,
        }
    }
}

impl Sequencer {
    pub fn pattern(&self) -> (p: &Pattern)
        ensures
            *p == self@.pattern,
    {
        &self.pattern
    }

    /// ¿Se puede calcular la vista? (ver `can_view`).
    pub fn can_view(&self) -> (ok: bool)
        ensures
            ok == can_view(self@),
    {
        let stopped = match self.transport {
            Transport::Stopped => true,
            _ => false,
        };
        self.pattern.is_wf() && !(self.pattern.ticks_per_step == 0 && !stopped && self.tick > 0)
    }
}

} // verus!
