//! Leyes del patrón: cada track se repite con su propio largo (polimetría),
//! el modo de canal único rutea todo por un canal, y E(k, n) reparte
//! exactamente k golpes en n pasos.
use vstd::arithmetic::div_mod::{
    lemma_fundamental_div_mod, lemma_fundamental_div_mod_converse, lemma_mod_multiples_vanish,
};
use vstd::prelude::*;

use crate::pattern::{
    clamp_pulses, clamp_steps, euclid_applied, euclid_hit, events_at_tick, on_step_boundary,
    opt_seq, step_events, track_event, ChannelMode, Pattern, Step, Track,
};

verus! {

/// Un track con largo L dispara lo mismo en el paso i que en el paso i + L·m.
pub proof fn law_track_loops_at_its_own_length(mode: ChannelMode, t: Track, step_index: nat, m: nat)
    requires
        t.len > 0,
    ensures
        track_event(mode, t, step_index + (t.len as nat) * m) == track_event(mode, t, step_index),
{
    let l = t.len as int;
    lemma_mod_multiples_vanish(m as int, step_index as int, l);
    assert((step_index + (t.len as nat) * m) as int == l * (m as int) + step_index as int)
        by (nonlinear_arith)
        requires
            l == t.len as int,
    ;
}

/// Si todos los largos activos dividen a `period`, los primeros `k` tracks
/// disparan lo mismo en el paso i que en el paso i + period.
proof fn lemma_step_events_periodic(p: Pattern, step_index: nat, period: nat, k: nat)
    requires
        k <= p.tracks@.len(),
        forall|i: int|
            0 <= i < p.tracks@.len() ==> (#[trigger] p.tracks@[i]).len == 0 || period
                % (p.tracks@[i].len as nat) == 0,
    ensures
        step_events(p, step_index + period, k) == step_events(p, step_index, k),
    decreases k,
{
    if k > 0 {
        lemma_step_events_periodic(p, step_index, period, (k - 1) as nat);
        let t = p.tracks@[k - 1];
        if t.len > 0 {
            let l = t.len as int;
            lemma_fundamental_div_mod(period as int, l);
            lemma_mod_multiples_vanish(period as int / l, step_index as int, l);
            assert(step_index + period == l * (period as int / l) + step_index);
        }
    }
}

/// El patrón completo se repite: si todos los largos activos dividen a
/// `period` (en pasos), lo que cae en el tick t es lo mismo que cae en el
/// tick t + period·ticks_por_paso. En particular, un patrón de tracks de 16
/// pasos da la vuelta cada 16 pasos.
pub proof fn law_pattern_repeats(p: Pattern, tick: u32, period: nat)
    requires
        p.ticks_per_step > 0,
        tick + (p.ticks_per_step as nat) * period <= u32::MAX,
        forall|i: int|
            0 <= i < p.tracks@.len() ==> (#[trigger] p.tracks@[i]).len == 0 || period
                % (p.tracks@[i].len as nat) == 0,
    ensures
        events_at_tick(p, (tick + (p.ticks_per_step as nat) * period) as u32) == events_at_tick(
            p,
            tick,
        ),
{
    let d = p.ticks_per_step as int;
    let t2 = tick + (p.ticks_per_step as nat) * period;
    lemma_fundamental_div_mod(tick as int, d);
    let q = tick as int / d;
    let r = tick as int % d;
    assert(t2 == (q + period) * d + r) by (nonlinear_arith)
        requires
            t2 == tick + d * period,
            tick == d * q + r,
    ;
    lemma_fundamental_div_mod_converse(t2 as int, d, q + period, r);
    lemma_step_events_periodic(p, q as nat, period, p.tracks@.len());
}

/// Todas las notas de un paso de los primeros `k` tracks salen por `ch` en
/// modo de canal único.
proof fn lemma_single_channel(p: Pattern, step_index: nat, k: nat, ch: u8)
    requires
        p.channel_mode == ChannelMode::Single(ch),
        k <= p.tracks@.len(),
    ensures
        forall|j: int|
            0 <= j < step_events(p, step_index, k).len() ==> #[trigger] step_events(
                p,
                step_index,
                k,
            )[j].channel == ch,
    decreases k,
{
    if k > 0 {
        lemma_single_channel(p, step_index, (k - 1) as nat, ch);
        let prev = step_events(p, step_index, (k - 1) as nat);
        let last = opt_seq(track_event(p.channel_mode, p.tracks@[k - 1], step_index));
        assert forall|j: int| 0 <= j < (prev + last).len() implies (prev + last)[j].channel == ch by {
            if j >= prev.len() {
                assert((prev + last)[j] == last[j - prev.len()]);
            } else {
                assert((prev + last)[j] == prev[j]);
            }
        }
    }
}

/// En modo de canal único todas las notas salen por ese canal, sea cual sea
/// el canal propio de cada track.
pub proof fn law_single_channel_routes_every_note(p: Pattern, tick: u32, ch: u8)
    requires
        p.channel_mode == ChannelMode::Single(ch),
    ensures
        forall|j: int|
            0 <= j < events_at_tick(p, tick).len() ==> (#[trigger] events_at_tick(p, tick)[j]).channel
                == ch,
{
    if on_step_boundary(tick, p.ticks_per_step) && p.ticks_per_step != 0 {
        lemma_single_channel(
            p,
            (tick / (p.ticks_per_step as u32)) as nat,
            p.tracks@.len(),
            ch,
        );
    }
}

/// Cantidad de golpes de E(k, n) entre los primeros `m` pasos.
pub open spec fn euclid_count(k: nat, n: nat, m: nat) -> nat
    decreases m,
{
    if m == 0 {
        0
    } else {
        euclid_count(k, n, (m - 1) as nat) + if euclid_hit(k, n, (m - 1) as nat) {
            1nat
        } else {
            0nat
        }
    }
}

/// Restar k (≤ n) a `a` baja el cociente por n en uno exactamente cuando el
/// resto de `a` es menor que k.
proof fn lemma_div_step(a: int, k: int, n: int)
    requires
        0 < n,
        0 <= k <= n,
    ensures
        a / n - (a - k) / n == if a % n < k {
            1int
        } else {
            0int
        },
{
    lemma_fundamental_div_mod(a, n);
    let q = a / n;
    let r = a % n;
    if r < k {
        assert(a - k == (q - 1) * n + (r - k + n)) by (nonlinear_arith)
            requires
                a == n * q + r,
        ;
        lemma_fundamental_div_mod_converse(a - k, n, q - 1, r - k + n);
    } else {
        assert(a - k == q * n + (r - k)) by (nonlinear_arith)
            requires
                a == n * q + r,
        ;
        lemma_fundamental_div_mod_converse(a - k, n, q, r - k);
    }
}

/// Telescopía: los golpes de los primeros m pasos son
/// ((m−1)·k)/n − (−k)/n.
proof fn lemma_euclid_count_telescopes(k: nat, n: nat, m: nat)
    requires
        0 < n,
        k <= n,
    ensures
        euclid_count(k, n, m) == (((m as int) - 1) * (k as int)) / (n as int) - (-(k as int)) / (
        n as int),
    decreases m,
{
    if m > 0 {
        lemma_euclid_count_telescopes(k, n, (m - 1) as nat);
        let i = (m - 1) as int;
        let ki = k as int;
        let ni = n as int;
        lemma_div_step(i * ki, ki, ni);
        assert(i * ki - ki == (i - 1) * ki) by (nonlinear_arith);
        assert((((m - 1) as nat) as int - 1) * ki == (i - 1) * ki);
        assert(((m as int) - 1) * ki == i * ki);
        assert(euclid_hit(k, n, (m - 1) as nat) == ((i * ki) % ni < ki));
    } else {
        assert(((m as int) - 1) * (k as int) == -(k as int)) by (nonlinear_arith)
            requires
                m == 0,
        ;
    }
}

/// E(k, n) reparte exactamente k golpes en n pasos (0 ≤ k ≤ n, n ≥ 1).
pub proof fn law_euclid_has_exactly_k_hits(k: nat, n: nat)
    requires
        0 < n,
        k <= n,
    ensures
        euclid_count(k, n, n) == k,
{
    lemma_euclid_count_telescopes(k, n, n);
    let ni = n as int;
    let ki = k as int;
    if k == 0 {
        assert((ni - 1) * ki == 0) by (nonlinear_arith)
            requires
                ki == 0,
        ;
        lemma_fundamental_div_mod_converse(0, ni, 0, 0);
    } else {
        assert((ni - 1) * ki == (ki - 1) * ni + (ni - ki)) by (nonlinear_arith);
        lemma_fundamental_div_mod_converse((ni - 1) * ki, ni, ki - 1, ni - ki);
        lemma_fundamental_div_mod_converse(-ki, ni, -1, ni - ki);
    }
}

/// E(k, n) con al menos un golpe arranca golpeando en el paso 0.
pub proof fn law_euclid_starts_on_a_hit(k: nat, n: nat)
    requires
        0 < k,
        0 < n,
    ensures
        euclid_hit(k, n, 0),
{
    assert(0 * k == 0);
    assert(0nat % n == 0);
}

/// Pasos encendidos entre los primeros `m` de una grilla.
pub open spec fn on_count(steps: Seq<Step>, m: nat) -> nat
    decreases m,
{
    if m == 0 {
        0
    } else {
        on_count(steps, (m - 1) as nat) + if steps[m - 1].on {
            1nat
        } else {
            0nat
        }
    }
}

proof fn lemma_on_count_matches(u: Track, k: nat, n: nat, m: nat)
    requires
        m <= n,
        n <= u.steps@.len(),
        forall|i: int| 0 <= i < n ==> (#[trigger] u.steps@[i]).on == euclid_hit(k, n, i as nat),
    ensures
        on_count(u.steps@, m) == euclid_count(k, n, m),
    decreases m,
{
    if m > 0 {
        lemma_on_count_matches(u, k, n, (m - 1) as nat);
        assert(u.steps@[m - 1].on == euclid_hit(k, n, (m - 1) as nat));
    }
}

/// Un track en modo euclidiano E(pulses, steps) tiene exactamente k pasos
/// encendidos en su largo activo n, con n = steps recortado a 1..=64 y
/// k = min(pulses, n).
pub proof fn law_euclidean_track_has_exactly_k_hits(t: Track, u: Track, pulses: u8, steps: u8)
    requires
        euclid_applied(t, u, pulses, steps),
    ensures
        u.len == clamp_steps(steps),
        on_count(u.steps@, u.len as nat) == clamp_pulses(pulses, steps),
{
    let n = clamp_steps(steps) as nat;
    let k = clamp_pulses(pulses, steps) as nat;
    lemma_on_count_matches(u, k, n, n);
    law_euclid_has_exactly_k_hits(k, n);
}

} // verus!
