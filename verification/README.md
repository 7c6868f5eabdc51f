# obrero-core

Núcleo verificado de obrero-1, un secuenciador MIDI de pasos con doble
target (ESP32 por MIDI DIN y web por Web MIDI). La lógica vive en `src/` y
está verificada con Verus; `app/` es la plataforma: reloj y tempo, bindings
web, firmware y banco de hardware-in-the-loop.

## src/

- `midi.rs`: parser MIDI byte a byte con running status y formateo legible
  de mensajes. Leyes: Real-Time transparente, running status, partir la
  entrada no cambia nada.
- `pattern.rs`: pasos, tracks (manual o euclidiano E(k, n)) y las notas que
  caen en cada tick. `pattern_laws.rs`: polimetría (cada track se repite con
  su largo), canal único, E(k, n) tiene exactamente k golpes.
- `engine.rs`: `Sequencer`, el motor sans-io tick a tick: transporte
  (Play, Stop prolijo y doble Stop), note-offs agendados, reloj externo,
  vista. `engine_laws.rs`: ninguna nota queda colgada, el corte prolijo no
  dispara pasos nuevos, el reloj externo reproduce lo mismo que el interno,
  cambiar de fuente de reloj corta como lo haría el master de antes.
- `encoder.rs`: encoders rotativos leídos por 74HC165.
- `hil.rs`: configuración del banco HIL, elección de puertos, armado de
  líneas del log UART. Ley: las líneas son los tramos del flujo terminados
  en `\n`.
- `text.rs`, `uptime.rs`, `view.rs`, `input.rs`: formateo numérico,
  desglose de tiempo, vista y eventos de UI.

## app/

- `engine.rs`: `Engine` = `Sequencer` + tempo (`f32`) + instante del próximo
  tick (`f64`, acumulado sin drift).
- `wasm.rs`, `view.rs`: bindings wasm-bindgen y la vista serializable.
- `hil/`, `list_ports.rs`: banco de pruebas contra la placa real.
- `firmware/`: tareas FreeRTOS del ESP32.
