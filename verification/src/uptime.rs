//! Desglose del tiempo transcurrido desde el arranque (para el log de
//! depuración del reloj del firmware).
use vstd::prelude::*;

verus! {

/// División entera que trunca hacia cero (la de `/` en Rust).
pub open spec fn trunc_div(a: int, b: int) -> int {
    if a >= 0 {
        a / b
    } else {
        -((-a) / b)
    }
}

/// Resto de la división que trunca hacia cero (el de `%` en Rust).
pub open spec fn trunc_rem(a: int, b: int) -> int {
    a - b * trunc_div(a, b)
}

/// Tiempo transcurrido en µs, desglosado.
#[derive(Clone, Copy, Debug, PartialEq, Eq)]
pub struct Uptime {
    pub total_us: i64,
    pub total_ms: i64,
    pub hours: i64,
    pub minutes: i64,
    pub seconds: i64,
    pub milliseconds: i64,
}

/// Desglosa `elapsed_us` en horas, minutos (0-59), segundos (0-59) y
/// milisegundos (0-999).
pub fn uptime_breakdown(elapsed_us: i64) -> (u: Uptime)
    ensures
        u.total_us == elapsed_us,
        u.total_ms == trunc_div(elapsed_us as int, 1000),
        u.hours == trunc_div(trunc_div(trunc_div(elapsed_us as int, 1_000_000), 60), 60),
        u.minutes == trunc_rem(trunc_div(trunc_div(elapsed_us as int, 1_000_000), 60), 60),
        u.seconds == trunc_rem(trunc_div(elapsed_us as int, 1_000_000), 60),
        u.milliseconds == trunc_rem(trunc_div(elapsed_us as int, 1000), 1000),
{
    let total_ms = elapsed_us / 1000;
    let total_seconds = elapsed_us / 1_000_000;
    let total_minutes = total_seconds / 60;
    let total_hours = total_minutes / 60;
    Uptime {
        total_us: elapsed_us,
        total_ms,
        hours: total_hours,
        minutes: total_minutes % 60,
        seconds: total_seconds % 60,
        milliseconds: total_ms % 1000,
    }
}

} // verus!
