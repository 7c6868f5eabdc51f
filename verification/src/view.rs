//! Estado de la UI que produce el motor. El core no dibuja nada: el firmware
//! lo renderiza en el display y la web lo serializa hacia JS.
use vstd::prelude::*;

verus! {

#[derive(Clone, Copy, Debug, PartialEq, Eq)]
pub struct StepView {
    pub on: bool,
    pub note: u8,
    pub velocity: u8,
}

/// Parámetros E(k, n) de un track en modo euclidiano.
#[derive(Clone, Copy, Debug, PartialEq, Eq)]
pub struct EuclideanView {
    pub pulses: u8,
    pub steps: u8,
}

#[derive(Clone, Debug)]
pub struct TrackView {
    pub channel: u8,
    pub muted: bool,
    /// Nota base del track (lane drum machine: la de sus pasos).
    pub note: u8,
    /// Some(E(k, n)) si el track está en modo euclidiano.
    pub euclidean: Option<EuclideanView>,
    /// Paso que está sonando en este track (módulo su propio largo).
    pub current_step: usize,
    /// Los pasos activos del track (su largo, no toda la grilla).
    pub steps: Vec<StepView>,
}

/// Vista del secuenciador. El tempo no está acá: lo lleva la capa de
/// tiempo que agenda los ticks.
#[derive(Clone, Debug)]
pub struct ViewModel {
    pub playing: bool,
    pub external_clock: bool,
    /// Some(canal) = modo canal único (drum machine); None = canal por track.
    pub single_channel: Option<u8>,
    /// Paso que está sonando (índice sobre el track seleccionado).
    pub current_step: usize,
    pub selected_track: usize,
    pub tracks: Vec<TrackView>,
}

} // verus!
