//! Patrón de pasos: tracks con grilla manual o euclidiana, y la consulta de
//! qué notas caen en cada tick.
use vstd::prelude::*;

verus! {

/// Resolución interna: 24 ticks por negra (= MIDI clock).
pub const PPQN: u32 = 24;

#[derive(Clone, Copy, Debug, PartialEq, Eq)]
pub struct Step {
    pub on: bool,
    pub note: u8,
    pub velocity: u8,
    /// Duración de la nota en ticks (6 ticks = un paso de semicorchea).
    pub gate_ticks: u8,
}

/// Cómo se define la secuencia de un track.
#[derive(Clone, Copy, Debug, PartialEq, Eq)]
pub enum StepMode {
    /// Pasos editados a mano en la grilla.
    Manual,
    /// Ritmo euclidiano: `pulses` golpes repartidos parejo en `steps` pasos.
    Euclidean { pulses: u8, steps: u8 },
}

/// Paso `i` de E(k, n): golpea si (i·k) mod n < k.
pub open spec fn euclid_hit(k: nat, n: nat, i: nat) -> bool {
    (i * k) % n < k
}

/// Largo efectivo de E(k, n): al menos un paso.
pub open spec fn euclid_len(steps: u8) -> nat {
    if steps == 0 {
        1
    } else {
        steps as nat
    }
}

/// E(k, n) por aritmética modular: el paso i golpea si (i·k) mod n < k.
/// Equivale a Bjorklund: E(3,8) = x..x..x. (tresillo), E(5,8) = x.x.xx.x.
pub fn euclidean_hits(pulses: u8, steps: u8) -> (hits: Vec<bool>)
    ensures
        hits@.len() == euclid_len(steps),
        forall|i: int|
            0 <= i < hits@.len() ==> hits@[i] == euclid_hit(
                pulses as nat,
                euclid_len(steps),
                i as nat,
            ),
{
    let k = pulses as u32;
    let n: u32 = if steps == 0 {
        1
    } else {
        steps as u32
    };
    let mut hits: Vec<bool> = Vec::new();
    let mut i: u32 = 0;
    while i < n
        invariant
            n == euclid_len(steps),
            k == pulses,
            i <= n,
            hits@.len() == i,
            forall|j: int| 0 <= j < i ==> hits@[j] == euclid_hit(k as nat, n as nat, j as nat),
        decreases n - i,
    {
        assert(i * k <= 255 * 255) by (nonlinear_arith)
            requires
                i < n,
                n <= 255,
                k <= 255,
        ;
        hits.push((i * k) % n < k);
        i = i + 1;
    }
    hits
}

#[derive(Clone, Debug)]
pub struct Track {
    /// Canal MIDI 0-15.
    pub channel: u8,
    pub steps: Vec<Step>,
    /// Largo activo del track en pasos (permite polimetría; <= steps.len()).
    pub len: usize,
    pub muted: bool,
    pub mode: StepMode,
}

/// Paso por defecto cuando el track no tiene pasos.
pub open spec fn default_step() -> Step {
    Step { on: false, note: 60, velocity: 100, gate_ticks: 3 }
}

/// Paso base para completar la grilla: el primero del track (o el de por
/// defecto), apagado.
pub open spec fn base_step(steps: Seq<Step>) -> Step {
    let first = if steps.len() > 0 {
        steps[0]
    } else {
        default_step()
    };
    Step { on: false, ..first }
}

/// Cantidad de pasos de E(k, n) tras recortar: n en 1..=64.
pub open spec fn clamp_steps(steps: u8) -> u8 {
    if steps < 1 {
        1
    } else if steps > 64 {
        64
    } else {
        steps
    }
}

/// Golpes de E(k, n) tras recortar: como mucho n.
pub open spec fn clamp_pulses(pulses: u8, steps: u8) -> u8 {
    if pulses < clamp_steps(steps) {
        pulses
    } else {
        clamp_steps(steps)
    }
}

/// `u` es `t` tras regenerar la grilla con E(pulses, steps): el largo pasa a
/// n = steps recortado a 1..=64, los primeros n pasos se encienden según
/// E(k, n) con k = min(pulses, n) conservando nota/velocidad/gate (los que
/// faltaban se completan con el paso base), y el resto de la grilla queda.
pub open spec fn euclid_applied(t: Track, u: Track, pulses: u8, steps: u8) -> bool {
    let n = clamp_steps(steps);
    let k = clamp_pulses(pulses, steps);
    let base = base_step(t.steps@);
    &&& u.len == n
    &&& u.mode == StepMode::Euclidean { pulses: k, steps: n }
    &&& u.channel == t.channel
    &&& u.muted == t.muted
    &&& u.steps@.len() == if t.steps@.len() < n {
        n as int
    } else {
        t.steps@.len() as int
    }
    &&& forall|i: int|
        0 <= i < n ==> u.steps@[i] == (Step {
            on: euclid_hit(k as nat, n as nat, i as nat),
            ..(if i < t.steps@.len() {
                t.steps@[i]
            } else {
                base
            })
        })
    &&& forall|i: int| n <= i < t.steps@.len() ==> u.steps@[i] == t.steps@[i]
}

/// `u` es `t` de vuelta en modo manual, con el largo completo de la grilla.
pub open spec fn manual_restored(t: Track, u: Track) -> bool {
    &&& u.mode == StepMode::Manual
    &&& u.len == t.steps@.len()
    &&& u.steps == t.steps
    &&& u.channel == t.channel
    &&& u.muted == t.muted
}

impl Track {
    /// El largo activo no excede la grilla.
    pub open spec fn wf(&self) -> bool {
        self.len <= self.steps@.len()
    }

    pub fn new(channel: u8, note: u8, num_steps: usize) -> (t: Self)
        ensures
            t.channel == channel,
            t.len == num_steps,
            t.steps@.len() == num_steps,
            forall|i: int|
                0 <= i < num_steps ==> t.steps@[i] == (Step {
                    on: false,
                    note,
                    velocity: 100,
                    gate_ticks: 3,
                }),
            !t.muted,
            t.mode == StepMode::Manual,
            t.wf(),
    {
        let step = Step { on: false, note, velocity: 100, gate_ticks: 3 };
        let mut steps: Vec<Step> = Vec::new();
        let mut i: usize = 0;
        while i < num_steps
            invariant
                i <= num_steps,
                steps@.len() == i,
                forall|j: int| 0 <= j < i ==> steps@[j] == step,
            decreases num_steps - i,
        {
            steps.push(step);
            i = i + 1;
        }
        Track { channel, steps, len: num_steps, muted: false, mode: StepMode::Manual }
    }

    /// Regenera la grilla con E(pulses, steps) y acorta el track a `steps`.
    /// Conserva nota/velocidad/gate del track como base de los pasos nuevos.
    pub fn apply_euclidean(&mut self, pulses: u8, steps: u8)
        ensures
            euclid_applied(*old(self), *final(self), pulses, steps),
            final(self).wf(),
    {
        let steps: u8 = if steps < 1 {
            1
        } else if steps > 64 {
            64
        } else {
            steps
        };
        let pulses: u8 = if pulses < steps {
            pulses
        } else {
            steps
        };
        let first = if self.steps.len() > 0 {
            self.steps[0]
        } else {
            Step { on: false, note: 60, velocity: 100, gate_ticks: 3 }
        };
        let base = Step { on: false, ..first };
        let ghost old_steps = self.steps@;
        let n = steps as usize;
        while self.steps.len() < n
            invariant
                n <= 64,
                self.channel == old(self).channel,
                self.muted == old(self).muted,
                self.steps@.len() <= (if old_steps.len() < n {
                    n as int
                } else {
                    old_steps.len() as int
                }),
                self.steps@.len() >= old_steps.len(),
                forall|i: int| 0 <= i < old_steps.len() ==> self.steps@[i] == old_steps[i],
                forall|i: int| old_steps.len() <= i < self.steps@.len() ==> self.steps@[i] == base,
            decreases n - self.steps@.len(),
        {
            self.steps.push(base);
        }
        self.len = n;
        let hits = euclidean_hits(pulses, steps);
        let ghost padded = self.steps@;
        let mut i: usize = 0;
        while i < n
            invariant
                i <= n,
                n == steps,
                hits@.len() == n,
                forall|j: int|
                    0 <= j < n ==> hits@[j] == euclid_hit(pulses as nat, n as nat, j as nat),
                self.channel == old(self).channel,
                self.muted == old(self).muted,
                self.len == n,
                self.steps@.len() == padded.len(),
                padded.len() >= n,
                forall|j: int| 0 <= j < i ==> self.steps@[j] == (Step { on: hits@[j], ..padded[j] }),
                forall|j: int| i <= j < padded.len() ==> self.steps@[j] == padded[j],
            decreases n - i,
        {
            let mut st = self.steps[i];
            st.on = hits[i];
            self.steps.set(i, st);
            i = i + 1;
        }
        self.mode = StepMode::Euclidean { pulses, steps };
    }

    /// Vuelve a edición manual conservando la grilla generada y reabriendo
    /// el largo completo del track.
    pub fn set_manual(&mut self)
        ensures
            manual_restored(*old(self), *final(self)),
            final(self).wf(),
    {
        self.mode = StepMode::Manual;
        self.len = self.steps.len();
    }
}

/// Cómo se asigna el canal MIDI de cada track al emitir notas.
#[derive(Clone, Copy, Debug, PartialEq, Eq)]
pub enum ChannelMode {
    /// Cada track sale por su propio canal (varios dispositivos).
    PerTrack,
    /// Todos los tracks salen por un canal único y se distinguen por nota
    /// (estilo drum machine: canal 10, una nota por instrumento).
    Single(u8),
}

/// Nota que el motor debe disparar en un tick dado.
#[derive(Clone, Copy, Debug, PartialEq, Eq)]
pub struct NoteEvent {
    pub channel: u8,
    pub note: u8,
    pub velocity: u8,
    pub gate_ticks: u8,
}

#[derive(Clone, Debug)]
pub struct Pattern {
    pub tracks: Vec<Track>,
    /// Ticks por paso (6 = semicorcheas a 24 PPQN).
    pub ticks_per_step: u8,
    pub channel_mode: ChannelMode,
}

/// Canal por el que sale un track según el modo de canales.
pub open spec fn out_channel(mode: ChannelMode, track_channel: u8) -> u8 {
    match mode {
        ChannelMode::PerTrack => track_channel,
        ChannelMode::Single(ch) => ch,
    }
}

/// Nota que dispara el track en el paso global `step_index` (cada track lo
/// reduce módulo su propio largo); None si está muteado, vacío o el paso
/// está apagado.
pub open spec fn track_event(mode: ChannelMode, t: Track, step_index: nat) -> Option<NoteEvent> {
    if t.muted || t.len == 0 {
        None
    } else {
        let st = t.steps@[(step_index % (t.len as nat)) as int];
        if st.on {
            Some(
                NoteEvent {
                    channel: out_channel(mode, t.channel),
                    note: st.note,
                    velocity: st.velocity,
                    gate_ticks: st.gate_ticks,
                },
            )
        } else {
            None
        }
    }
}

pub open spec fn opt_seq<T>(o: Option<T>) -> Seq<T> {
    match o {
        Some(x) => seq![x],
        None => Seq::empty(),
    }
}

/// Notas de los primeros `k` tracks en el paso `step_index`, en orden de
/// track.
pub open spec fn step_events(p: Pattern, step_index: nat, k: nat) -> Seq<NoteEvent>
    decreases k,
{
    if k == 0 {
        Seq::empty()
    } else {
        step_events(p, step_index, (k - 1) as nat) + opt_seq(
            track_event(p.channel_mode, p.tracks@[k - 1], step_index),
        )
    }
}

/// ¿Cae `tick` en el comienzo de un paso? (como `is_multiple_of`).
pub open spec fn on_step_boundary(tick: u32, tps: u8) -> bool {
    if tps == 0 {
        tick == 0
    } else {
        tick % (tps as u32) == 0
    }
}

/// Notas que caen en `tick`.
pub open spec fn events_at_tick(p: Pattern, tick: u32) -> Seq<NoteEvent> {
    if on_step_boundary(tick, p.ticks_per_step) && p.ticks_per_step != 0 {
        step_events(p, (tick / (p.ticks_per_step as u32)) as nat, p.tracks@.len())
    } else {
        Seq::empty()
    }
}

/// El paso global `step_index` cae dentro de la grilla del track (o el track
/// no suena: muteado o de largo 0).
pub open spec fn step_in_grid(t: Track, step_index: nat) -> bool {
    t.muted || t.len == 0 || step_index % (t.len as nat) < t.steps@.len()
}

/// `events_at(tick)` está definido: no divide por cero (ticks-por-paso en 0
/// solo se consulta fuera del tick 0) y, si `tick` abre un paso, ese paso
/// existe en la grilla de cada track que suena.
pub open spec fn events_defined(p: Pattern, tick: u32) -> bool {
    &&& !(p.ticks_per_step == 0 && tick == 0)
    &&& (p.ticks_per_step != 0 && on_step_boundary(tick, p.ticks_per_step)) ==> forall|i: int|
        0 <= i < p.tracks@.len() ==> #[trigger] step_in_grid(
            p.tracks@[i],
            (tick / (p.ticks_per_step as u32)) as nat,
        )
}

/// El patrón inicial: 5 tracks manuales de 16 pasos apagados en canal 1,
/// notas 60-64 (C4..E4), semicorcheas, un canal por track.
pub open spec fn is_starter(p: Pattern) -> bool {
    &&& p.tracks@.len() == 5
    &&& p.ticks_per_step == 6
    &&& p.channel_mode == ChannelMode::PerTrack
    &&& forall|i: int|
        0 <= i < 5 ==> {
            let t = #[trigger] p.tracks@[i];
            &&& t.channel == 0
            &&& t.len == 16
            &&& t.steps@.len() == 16
            &&& !t.muted
            &&& t.mode == StepMode::Manual
            &&& forall|j: int|
                0 <= j < 16 ==> t.steps@[j] == (Step {
                    on: false,
                    note: (60 + i) as u8,
                    velocity: 100,
                    gate_ticks: 3,
                })
        }
}

impl Pattern {
    /// Todo track cumple que su largo activo no excede la grilla.
    pub open spec fn wf(&self) -> bool {
        forall|i: int| 0 <= i < self.tracks@.len() ==> #[trigger] self.tracks@[i].wf()
    }

    /// ¿Todo track tiene su largo activo dentro de la grilla?
    pub fn is_wf(&self) -> (ok: bool)
        ensures
            ok == self.wf(),
    {
        let mut i: usize = 0;
        while i < self.tracks.len()
            invariant
                i <= self.tracks@.len(),
                forall|j: int| 0 <= j < i ==> #[trigger] self.tracks@[j].wf(),
            decreases self.tracks@.len() - i,
        {
            if self.tracks[i].len > self.tracks[i].steps.len() {
                assert(!self.tracks@[i as int].wf());
                return false;
            }
            i = i + 1;
        }
        true
    }

    /// Patrón inicial: 5 tracks de 16 pasos en canal 1, notas 60-64 (C4..E4).
    pub fn starter() -> (p: Self)
        ensures
            is_starter(p),
            p.wf(),
    {
        let mut tracks: Vec<Track> = Vec::new();
        let mut i: u8 = 0;
        while i < 5
            invariant
                i <= 5,
                tracks@.len() == i,
                forall|k: int|
                    0 <= k < i ==> {
                        let t = #[trigger] tracks@[k];
                        &&& t.channel == 0
                        &&& t.len == 16
                        &&& t.steps@.len() == 16
                        &&& !t.muted
                        &&& t.mode == StepMode::Manual
                        &&& forall|j: int|
                            0 <= j < 16 ==> t.steps@[j] == (Step {
                                on: false,
                                note: (60 + k) as u8,
                                velocity: 100,
                                gate_ticks: 3,
                            })
                    },
            decreases 5 - i,
        {
            tracks.push(Track::new(0, 60 + i, 16));
            i = i + 1;
        }
        Pattern { tracks, ticks_per_step: 6, channel_mode: ChannelMode::PerTrack }
    }

    /// ¿Está definido `events_at(tick)`? (ver `events_defined`).
    pub fn events_defined_at(&self, tick: u32) -> (ok: bool)
        ensures
            ok == events_defined(*self, tick),
    {
        let tps = self.ticks_per_step as u32;
        if tps == 0 {
            return tick != 0;
        }
        if tick % tps != 0 {
            return true;
        }
        let step_index = (tick / tps) as usize;
        let mut i: usize = 0;
        while i < self.tracks.len()
            invariant
                tps == self.ticks_per_step,
                tps != 0,
                tick % tps == 0,
                step_index == tick / tps,
                i <= self.tracks@.len(),
                forall|j: int|
                    0 <= j < i ==> #[trigger] step_in_grid(self.tracks@[j], step_index as nat),
            decreases self.tracks@.len() - i,
        {
            let track = &self.tracks[i];
            if !(track.muted || track.len == 0) && step_index % track.len >= track.steps.len() {
                assert(!step_in_grid(self.tracks@[i as int], step_index as nat));
                return false;
            }
            i = i + 1;
        }
        true
    }

    /// Notas que caen en `tick`. Única consulta que hace el motor durante la
    /// reproducción — reemplazar la grilla por una lista de eventos a futuro
    /// solo toca esta función.
    pub fn events_at(&self, tick: u32, out: &mut Vec<NoteEvent>)
        requires
            events_defined(*self, tick),
        ensures
            final(out)@ == old(out)@ + events_at_tick(*self, tick),
    {
        let tps = self.ticks_per_step as u32;
        let multiple = if tps == 0 {
            tick == 0
        } else {
            tick % tps == 0
        };
        if !multiple {
            return;
        }
        let step_index = (tick / tps) as usize;
        let ghost base = out@;
        let mut i: usize = 0;
        while i < self.tracks.len()
            invariant
                events_defined(*self, tick),
                on_step_boundary(tick, self.ticks_per_step),
                tps == self.ticks_per_step,
                tps != 0,
                step_index == tick / tps,
                i <= self.tracks@.len(),
                out@ == base + step_events(*self, step_index as nat, i as nat),
            decreases self.tracks@.len() - i,
        {
            let track = &self.tracks[i];
            assert(step_in_grid(self.tracks@[i as int], step_index as nat));
            if !(track.muted || track.len == 0) {
                let step = track.steps[step_index % track.len];
                if step.on {
                    let channel = match self.channel_mode {
                        ChannelMode::PerTrack => track.channel,
                        ChannelMode::Single(ch) => ch,
                    };
                    out.push(
                        NoteEvent {
                            channel,
                            note: step.note,
                            velocity: step.velocity,
                            gate_ticks: step.gate_ticks,
                        },
                    );
                }
            }
            i = i + 1;
            assert(out@ =~= base + step_events(*self, step_index as nat, i as nat));
        }
    }
}

} // verus!
