//! Decisiones del banco de hardware-in-the-loop que no dependen del
//! hardware: configuración desde variables de entorno, elección de puertos y
//! armado de líneas del log UART. Abrir puertos, leerlos y esperar quedan en
//! la aplicación.
use vstd::prelude::*;

use std::path::PathBuf;
use std::time::SystemTime;

verus! {

#[verifier::external_type_specification]
#[verifier::external_body]
pub struct ExPathBuf(PathBuf);

#[verifier::external_type_specification]
#[verifier::external_body]
pub struct ExSystemTime(SystemTime);

/// `SystemTime` es `Copy`: su `clone` devuelve el mismo instante.
pub assume_specification[ <SystemTime as Clone>::clone ](t: &SystemTime) -> (r: SystemTime)
    ensures
        r == *t,
;

/// Consola ESP-IDF por defecto (CONFIG_ESP_CONSOLE_UART_DEFAULT).
pub const DEFAULT_UART_BAUD: u32 = 115_200;

/// Marca de arranque por defecto que imprime la tarea de MIDI DIN.
pub open spec fn default_boot_marker() -> Seq<char> {
    "[midi_din] listo"@
}

/// Una línea del log UART de la placa.
#[derive(Clone, Debug)]
pub struct LogLine {
    pub at: SystemTime,
    pub text: String,
}

pub struct Config {
    pub firmware_dir: PathBuf,
    pub uart_port: Option<String>,
    pub uart_baud: u32,
    pub midi_in_name: String,
    pub midi_out_name: String,
    pub boot_marker: String,
}

/// Valores de las variables de entorno OBRERO_HIL_* (None = no seteada).
pub struct EnvVars {
    /// OBRERO_HIL
    pub hil: Option<String>,
    /// OBRERO_HIL_MIDI_IN
    pub midi_in: Option<String>,
    /// OBRERO_HIL_MIDI_OUT
    pub midi_out: Option<String>,
    /// OBRERO_HIL_UART_PORT
    pub uart_port: Option<String>,
    /// OBRERO_HIL_UART_BAUD
    pub uart_baud: Option<String>,
    /// OBRERO_HIL_BOOT_MARKER
    pub boot_marker: Option<String>,
}

/// Por qué no se pudo armar la configuración del banco.
#[derive(Clone, Copy, Debug, PartialEq, Eq)]
pub enum ConfigError {
    /// OBRERO_HIL no vale "1": no hay placa conectada.
    NotEnabled,
    /// Falta OBRERO_HIL_MIDI_IN.
    MissingMidiIn,
    /// Falta OBRERO_HIL_MIDI_OUT.
    MissingMidiOut,
    /// No hay OBRERO_HIL_FIRMWARE_DIR y no se encontró firmware/.
    FirmwareDirNotFound,
    /// OBRERO_HIL_UART_BAUD no es un número válido.
    InvalidUartBaud,
}

pub open spec fn is_ascii_digit(c: char) -> bool {
    '0' <= c <= '9'
}

/// Valor decimal de una secuencia de cifras.
pub open spec fn digits_value(s: Seq<char>) -> nat
    decreases s.len(),
{
    if s.len() == 0 {
        0
    } else {
        digits_value(s.drop_last()) * 10 + ((s.last() as nat) - ('0' as nat)) as nat
    }
}

/// El texto sin su signo `+` inicial, si lo tiene.
pub open spec fn unsigned_part(s: Seq<char>) -> Seq<char> {
    if s.len() > 0 && s[0] == '+' {
        s.drop_first()
    } else {
        s
    }
}

/// Solo cifras decimales.
pub open spec fn all_digits(d: Seq<char>) -> bool {
    forall|i: int| 0 <= i < d.len() ==> is_ascii_digit(#[trigger] d[i])
}

/// Lectura de un u32 en decimal: un signo `+` opcional seguido de al menos
/// una cifra, sin nada más, y un valor que entra en u32.
pub open spec fn parsed_u32(s: Seq<char>) -> Option<u32> {
    let d = unsigned_part(s);
    if d.len() > 0 && all_digits(d) && digits_value(d) <= u32::MAX {
        Some(digits_value(d) as u32)
    } else {
        None
    }
}

/// Agregar cifras al final nunca achica el valor.
proof fn lemma_digits_value_grows(d: Seq<char>, k: int)
    requires
        0 <= k <= d.len(),
        all_digits(d),
    ensures
        digits_value(d.take(k)) <= digits_value(d),
    decreases d.len(),
{
    if k == d.len() {
        assert(d.take(k) =~= d);
    } else {
        let p = d.drop_last();
        assert(is_ascii_digit(d[d.len() - 1]));
        assert forall|i: int| 0 <= i < p.len() implies is_ascii_digit(#[trigger] p[i]) by {
            assert(p[i] == d[i]);
        }
        lemma_digits_value_grows(p, k);
        assert(p.take(k) =~= d.take(k));
    }
}

/// Lee un u32 en decimal (ver `parsed_u32`), como `str::parse::<u32>`.
fn parse_u32(s: &str) -> (r: Option<u32>)
    ensures
        r == parsed_u32(s@),
{
    let n = s.unicode_len();
    let start: usize = if n > 0 && s.get_char(0) == '+' {
        1
    } else {
        0
    };
    let ghost d = s@.subrange(start as int, n as int);
    assert(d =~= unsigned_part(s@));
    if start == n {
        return None;
    }
    let mut v: u32 = 0;
    let mut i: usize = start;
    while i < n
        invariant
            start <= i <= n,
            start < n,
            n == s@.len(),
            d == s@.subrange(start as int, n as int),
            d == unsigned_part(s@),
            forall|j: int| start <= j < i ==> is_ascii_digit(#[trigger] s@[j]),
            v == digits_value(s@.subrange(start as int, i as int)),
        decreases n - i,
    {
        let c = s.get_char(i);
        if !('0' <= c && c <= '9') {
            assert(!is_ascii_digit(d[i - start]));
            assert(!all_digits(d));
            return None;
        }
        let digit: u32 = (c as u32) - ('0' as u32);
        let ghost next = s@.subrange(start as int, i + 1);
        assert(next.drop_last() =~= s@.subrange(start as int, i as int));
        assert(digits_value(next) == v * 10 + digit);
        if v > 429496729 || (v == 429496729 && digit > 5) {
            proof {
                if all_digits(d) {
                    lemma_digits_value_grows(d, i + 1 - start);
                    assert(d.take(i + 1 - start) =~= next);
                }
            }
            return None;
        }
        v = v * 10 + digit;
        i = i + 1;
    }
    assert(s@.subrange(start as int, n as int) =~= d);
    Some(v)
}

/// ¿`h` contiene a `n` como subsecuencia contigua?
pub open spec fn seq_contains(h: Seq<char>, n: Seq<char>) -> bool {
    exists|i: int| 0 <= i && i + n.len() <= h.len() && #[trigger] h.subrange(i, i + n.len()) == n
}

/// ¿Aparece `needle` como tramo de `hay`? (como `str::contains` con un
/// patrón `&str`).
fn str_contains(hay: &str, needle: &str) -> (r: bool)
    ensures
        r == seq_contains(hay@, needle@),
{
    let h = hay.unicode_len();
    let m = needle.unicode_len();
    if m > h {
        return false;
    }
    let last = h - m;
    let mut i: usize = 0;
    loop
        invariant
            h == hay@.len(),
            m == needle@.len(),
            last == h - m,
            i <= last,
            forall|k: int|
                0 <= k < i ==> #[trigger] hay@.subrange(k, k + needle@.len()) != needle@,
        decreases last - i,
    {
        let mut j: usize = 0;
        let mut matched = true;
        while j < m
            invariant
                h == hay@.len(),
                m == needle@.len(),
                i + m <= h,
                j <= m,
                matched ==> forall|l: int| 0 <= l < j ==> hay@[i + l] == needle@[l],
                !matched ==> hay@.subrange(i as int, i + needle@.len()) != needle@,
            decreases m - j,
        {
            if matched && hay.get_char(i + j) != needle.get_char(j) {
                assert(hay@.subrange(i as int, i + m)[j as int] == hay@[i + j]);
                matched = false;
            }
            j = j + 1;
        }
        if matched {
            assert(hay@.subrange(i as int, i + needle@.len()) =~= needle@);
            return true;
        }
        if i == last {
            return false;
        }
        i = i + 1;
    }
}

/// Configuración que resulta de las variables, en el orden en que se
/// validan: OBRERO_HIL, MIDI IN, MIDI OUT, directorio del firmware y
/// velocidad del UART.
pub open spec fn config_outcome(vars: EnvVars, firmware_dir_found: bool) -> Result<(), ConfigError> {
    if !(vars.hil matches Some(h) && h@ == "1"@) {
        Err(ConfigError::NotEnabled)
    } else if vars.midi_in is None {
        Err(ConfigError::MissingMidiIn)
    } else if vars.midi_out is None {
        Err(ConfigError::MissingMidiOut)
    } else if !firmware_dir_found {
        Err(ConfigError::FirmwareDirNotFound)
    } else if vars.uart_baud matches Some(b) && parsed_u32(b@) is None {
        Err(ConfigError::InvalidUartBaud)
    } else {
        Ok(())
    }
}

impl Config {
    /// Arma la configuración del banco a partir de las variables de entorno
    /// ya leídas. `firmware_dir` es OBRERO_HIL_FIRMWARE_DIR si está seteada,
    /// o el firmware/ del repo si se encontró (None si no).
    pub fn from_vars(vars: EnvVars, firmware_dir: Option<PathBuf>) -> (r: Result<Config, ConfigError>)
        ensures
            ({
                let outcome = config_outcome(vars, firmware_dir is Some);
                match r {
                    Err(e) => outcome == Err::<(), ConfigError>(e),
                    Ok(c) => {
                        &&& outcome is Ok
                        &&& Some(c.firmware_dir) == firmware_dir
                        &&& c.uart_port == vars.uart_port
                        &&& c.uart_baud == match vars.uart_baud {
                            Some(b) => parsed_u32(b@).unwrap(),
                            None => DEFAULT_UART_BAUD,
                        }
                        &&& Some(c.midi_in_name) == vars.midi_in
                        &&& Some(c.midi_out_name) == vars.midi_out
                        &&& c.boot_marker@ == match vars.boot_marker {
                            Some(m) => m@,
                            None => default_boot_marker(),
                        }
                    },
                }
            }),
    {
        let one = String::from_str("1");
        let enabled = match &vars.hil {
            Some(h) => *h == one,
            None => false,
        };
        if !enabled {
            return Err(ConfigError::NotEnabled);
        }
        let midi_in_name = match vars.midi_in {
            Some(v) => v,
            None => {
                return Err(ConfigError::MissingMidiIn);
            },
        };
        let midi_out_name = match vars.midi_out {
            Some(v) => v,
            None => {
                return Err(ConfigError::MissingMidiOut);
            },
        };
        let firmware_dir = match firmware_dir {
            Some(d) => d,
            None => {
                return Err(ConfigError::FirmwareDirNotFound);
            },
        };
        let uart_baud = match &vars.uart_baud {
            Some(v) => match parse_u32(v.as_str()) {
                Some(b) => b,
                None => {
                    return Err(ConfigError::InvalidUartBaud);
                },
            },
            None => DEFAULT_UART_BAUD,
        };
        let boot_marker = match vars.boot_marker {
            Some(m) => m,
            None => String::from_str("[midi_din] listo"),
        };
        Ok(
            Config {
                firmware_dir,
                uart_port: vars.uart_port,
                uart_baud,
                midi_in_name,
                midi_out_name,
                boot_marker,
            },
        )
    }

    /// El puerto UART configurado, o el que encuentre `autodetect` si no hay
    /// ninguno configurado.
    pub fn resolve_uart_port<E, F: FnOnce() -> Result<String, E>>(&self, autodetect: F) -> (r:
        Result<String, E>)
        requires
            self.uart_port is None ==> call_requires(autodetect, ()),
        ensures
            match self.uart_port {
                Some(p) => r == Ok::<String, E>(p),
                None => call_ensures(autodetect, (), r),
            },
    {
        match &self.uart_port {
            Some(port) => Ok(port.clone()),
            None => autodetect(),
        }
    }
}

/// Un puerto serie disponible: su nombre y si es un puerto USB.
pub struct PortEntry {
    pub name: String,
    pub is_usb: bool,
}

/// Índice del primer puerto USB (el conector UART del devkit, no el puerto
/// MIDI), si hay alguno.
pub fn first_usb_port(ports: &Vec<PortEntry>) -> (r: Option<usize>)
    ensures
        match r {
            Some(i) => i < ports@.len() && ports@[i as int].is_usb && forall|j: int|
                0 <= j < i ==> !(#[trigger] ports@[j]).is_usb,
            None => forall|j: int| 0 <= j < ports@.len() ==> !(#[trigger] ports@[j]).is_usb,
        },
{
    let mut i: usize = 0;
    while i < ports.len()
        invariant
            i <= ports@.len(),
            forall|j: int| 0 <= j < i ==> !(#[trigger] ports@[j]).is_usb,
        decreases ports@.len() - i,
    {
        if ports[i].is_usb {
            return Some(i);
        }
        i = i + 1;
    }
    None
}

/// ¿El puerto (si su nombre se pudo leer) tiene un nombre que contiene
/// `name_substr`?
pub open spec fn port_matches(name: Option<String>, name_substr: Seq<char>) -> bool {
    name matches Some(n) && seq_contains(n@, name_substr)
}

/// Índice del primer puerto MIDI cuyo nombre contiene `name_substr`
/// (`None` en la lista = nombre ilegible).
pub fn find_port_index(names: &Vec<Option<String>>, name_substr: &str) -> (r: Option<usize>)
    ensures
        match r {
            Some(i) => i < names@.len() && port_matches(names@[i as int], name_substr@) && forall|
                j: int,
            | 0 <= j < i ==> !port_matches(#[trigger] names@[j], name_substr@),
            None => forall|j: int|
                0 <= j < names@.len() ==> !port_matches(#[trigger] names@[j], name_substr@),
        },
{
    let mut i: usize = 0;
    while i < names.len()
        invariant
            i <= names@.len(),
            forall|j: int| 0 <= j < i ==> !port_matches(#[trigger] names@[j], name_substr@),
        decreases names@.len() - i,
    {
        match &names[i] {
            Some(name) => {
                if str_contains(name.as_str(), name_substr) {
                    return Some(i);
                }
            },
            None => {},
        }
        i = i + 1;
    }
    None
}

/// Texto que resulta de decodificar bytes como UTF-8, reemplazando las
/// secuencias inválidas (`String::from_utf8_lossy`).
pub uninterp spec fn utf8_lossy(bytes: Seq<u8>) -> Seq<char>;

/// Espacio en blanco de Unicode: los caracteres con la propiedad
/// White_Space, que es la que usa `str::trim_end`.
pub open spec fn is_white_space(c: char) -> bool {
    ||| '\u{9}' <= c <= '\u{D}'
    ||| c == ' '
    ||| c == '\u{85}'
    ||| c == '\u{A0}'
    ||| c == '\u{1680}'
    ||| '\u{2000}' <= c <= '\u{200A}'
    ||| c == '\u{2028}'
    ||| c == '\u{2029}'
    ||| c == '\u{202F}'
    ||| c == '\u{205F}'
    ||| c == '\u{3000}'
}

/// El texto sin el espacio en blanco final.
pub open spec fn trimmed_end(s: Seq<char>) -> Seq<char>
    decreases s.len(),
{
    if s.len() > 0 && is_white_space(s.last()) {
        trimmed_end(s.drop_last())
    } else {
        s
    }
}

/// `String::from_utf8_lossy`: decodifica UTF-8 reemplazando lo inválido por
/// U+FFFD. El resultado queda nombrado por `utf8_lossy` (depende solo de los
/// bytes); no se afirma nada más.
#[verifier::external_body]
fn lossy_text(bytes: &[u8]) -> (s: String)
    ensures
        s@ == utf8_lossy(bytes@),
{
    String::from_utf8_lossy(bytes).into_owned()
}

/// `str::trim_end`: según su documentación, saca del final todo carácter
/// con la propiedad White_Space de Unicode (ver `is_white_space`).
#[verifier::external_body]
fn trim_end_text(s: &str) -> (t: String)
    ensures
        t@ == trimmed_end(s@),
{
    s.trim_end().to_string()
}

/// Arma líneas de texto a partir de los bytes del log UART.
pub struct LineAssembler {
    line: Vec<u8>,
}

impl View for LineAssembler {
    type V = Seq<u8>;

    /// Bytes de la línea en curso.
    closed spec fn view(&self) -> Seq<u8> {
        self.line@
    }
}

/// Texto de una línea completa: los bytes decodificados y sin el espacio
/// en blanco final (el `\r` de un `\r\n` incluido).
pub open spec fn line_text(bytes: Seq<u8>) -> Seq<char> {
    trimmed_end(utf8_lossy(bytes))
}

/// Un byte sobre la línea en curso `pending`: `\n` la cierra (y entrega sus
/// bytes); cualquier otro byte se le agrega.
pub open spec fn assembler_step(pending: Seq<u8>, byte: u8) -> (Seq<u8>, Option<Seq<u8>>) {
    if byte == 10 {
        (Seq::empty(), Some(pending))
    } else {
        (pending.push(byte), None)
    }
}

/// Una ráfaga de bytes, byte a byte desde la línea en curso `pending`: la
/// línea en curso al final y el texto de cada línea cerrada, en orden.
pub open spec fn assembled(pending: Seq<u8>, bytes: Seq<u8>) -> (Seq<u8>, Seq<Seq<char>>)
    decreases bytes.len(),
{
    if bytes.len() == 0 {
        (pending, Seq::empty())
    } else {
        let (p, lines) = assembled(pending, bytes.drop_last());
        let (p2, closed) = assembler_step(p, bytes.last());
        (
            p2,
            match closed {
                Some(l) => lines.push(line_text(l)),
                None => lines,
            },
        )
    }
}

/// Sin ningún `\n`.
pub open spec fn newline_free(s: Seq<u8>) -> bool {
    forall|i: int| 0 <= i < s.len() ==> s[i] != 10
}

/// Los tramos, cada uno seguido de su `\n`, uno tras otro.
pub open spec fn terminated(segs: Seq<Seq<u8>>) -> Seq<u8>
    decreases segs.len(),
{
    if segs.len() == 0 {
        Seq::empty()
    } else {
        terminated(segs.drop_last()) + segs.last().push(10)
    }
}

/// Tramos de `bytes` terminados en `\n` (sin el `\n`), en orden, y lo que
/// sigue al último `\n`.
pub open spec fn split_lines(bytes: Seq<u8>) -> (Seq<Seq<u8>>, Seq<u8>)
    decreases bytes.len(),
{
    if bytes.len() == 0 {
        (Seq::empty(), Seq::empty())
    } else {
        let (segs, rest) = split_lines(bytes.drop_last());
        if bytes.last() == 10 {
            (segs.push(rest), Seq::empty())
        } else {
            (segs, rest.push(bytes.last()))
        }
    }
}

/// Las líneas del log son los tramos del flujo de bytes terminados en
/// `\n`: `split_lines` parte el flujo en tramos sin `\n`, cada uno seguido
/// de su `\n`, más un resto sin `\n`; y un armador recién creado que
/// recibe el flujo byte a byte entrega, en orden, el texto (decodificado y
/// sin espacio final) de cada tramo, y se queda con el resto, que nunca
/// forma una línea por sí solo.
pub proof fn law_lines_are_the_newline_terminated_segments(bytes: Seq<u8>)
    ensures
        ({
            let (segs, rest) = split_lines(bytes);
            &&& bytes == terminated(segs) + rest
            &&& newline_free(rest)
            &&& forall|i: int| 0 <= i < segs.len() ==> newline_free(#[trigger] segs[i])
            &&& assembled(Seq::empty(), bytes) == (rest, segs.map_values(
                |l: Seq<u8>| line_text(l),
            ))
        }),
    decreases bytes.len(),
{
    if bytes.len() > 0 {
        let d = bytes.drop_last();
        let b = bytes.last();
        law_lines_are_the_newline_terminated_segments(d);
        let (segs, rest) = split_lines(d);
        if b == 10 {
            let segs2 = segs.push(rest);
            assert(segs2.drop_last() =~= segs);
            assert(terminated(segs2) + Seq::<u8>::empty() =~= d.push(b));
            assert(bytes =~= d.push(b));
            assert forall|i: int| 0 <= i < segs2.len() implies newline_free(#[trigger] segs2[i]) by {
                if i < segs.len() {
                    assert(segs2[i] == segs[i]);
                }
            }
            assert(segs2.map_values(|l: Seq<u8>| line_text(l)) =~= segs.map_values(
                |l: Seq<u8>| line_text(l),
            ).push(line_text(rest)));
        } else {
            assert(terminated(segs) + rest.push(b) =~= (terminated(segs) + rest).push(b));
            assert(bytes =~= d.push(b));
            assert forall|i: int| 0 <= i < rest.push(b).len() implies rest.push(b)[i] != 10 by {
                if i < rest.len() {
                    assert(rest.push(b)[i] == rest[i]);
                }
            }
        }
    }
}

impl LineAssembler {
    pub fn new() -> (a: Self)
        ensures
            a@ == Seq::<u8>::empty(),
    {
        LineAssembler { line: Vec::new() }
    }

    /// Agrega un byte leído; al llegar `\n` devuelve el texto de la línea
    /// completa y empieza una nueva.
    pub fn feed(&mut self, byte: u8) -> (r: Option<String>)
        ensures
            final(self)@ == assembler_step(old(self)@, byte).0,
            match assembler_step(old(self)@, byte).1 {
                Some(l) => r matches Some(t) && t@ == line_text(l),
                None => r is None,
            },
    {
        if byte == 10 {
            let decoded = lossy_text(self.line.as_slice());
            let text = trim_end_text(decoded.as_str());
            self.line.clear();
            Some(text)
        } else {
            self.line.push(byte);
            None
        }
    }
}

} // verus!
