//! Núcleo del secuenciador MIDI: parser de bytes MIDI, patrón de pasos con
//! ritmos euclidianos, y la lógica de transporte del motor (sans-io: la
//! plataforma aporta el tiempo y el I/O).
pub mod encoder;
pub mod engine;
pub mod engine_laws;
pub mod hil;
pub mod input;
pub mod midi;
pub mod pattern;
pub mod pattern_laws;
pub mod text;
pub mod uptime;
pub mod view;

pub use engine::{ClockSource, Sequencer, TimedMidi};
pub use input::{Button, InputEvent};
pub use pattern::{ChannelMode, Pattern, Step, Track};
pub use view::ViewModel;
