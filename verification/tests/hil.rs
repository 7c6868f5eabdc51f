use std::path::PathBuf;

use obrero_core::hil::{
    find_port_index, first_usb_port, Config, ConfigError, EnvVars, LineAssembler, PortEntry,
    DEFAULT_UART_BAUD,
};
use obrero_core::uptime::{uptime_breakdown, Uptime};

fn vars() -> EnvVars {
    EnvVars {
        hil: Some("1".to_string()),
        midi_in: Some("USB MIDI".to_string()),
        midi_out: Some("USB MIDI out".to_string()),
        uart_port: None,
        uart_baud: None,
        boot_marker: None,
    }
}

#[test]
fn config_defaults() {
    let c = Config::from_vars(vars(), Some(PathBuf::from("/fw"))).ok().unwrap();
    assert_eq!(c.firmware_dir, PathBuf::from("/fw"));
    assert_eq!(c.uart_baud, DEFAULT_UART_BAUD);
    assert_eq!(c.uart_baud, 115_200);
    assert_eq!(c.boot_marker, "[midi_din] listo");
    assert_eq!(c.midi_in_name, "USB MIDI");
    assert_eq!(c.midi_out_name, "USB MIDI out");
    assert_eq!(c.uart_port, None);
}

#[test]
fn config_overrides() {
    let mut v = vars();
    v.uart_baud = Some("+9600".to_string());
    v.boot_marker = Some("hola".to_string());
    v.uart_port = Some("/dev/ttyUSB1".to_string());
    let c = Config::from_vars(v, Some(PathBuf::from("/fw"))).ok().unwrap();
    assert_eq!(c.uart_baud, 9600);
    assert_eq!(c.boot_marker, "hola");
    assert_eq!(c.uart_port.as_deref(), Some("/dev/ttyUSB1"));
}

#[test]
fn config_errors_in_order() {
    let mut v = vars();
    v.hil = Some("0".to_string());
    v.midi_in = None;
    assert_eq!(Config::from_vars(v, None).err(), Some(ConfigError::NotEnabled));
    let mut v = vars();
    v.hil = None;
    assert_eq!(Config::from_vars(v, None).err(), Some(ConfigError::NotEnabled));
    let mut v = vars();
    v.midi_in = None;
    v.midi_out = None;
    assert_eq!(Config::from_vars(v, None).err(), Some(ConfigError::MissingMidiIn));
    let mut v = vars();
    v.midi_out = None;
    assert_eq!(Config::from_vars(v, None).err(), Some(ConfigError::MissingMidiOut));
    let mut v = vars();
    v.uart_baud = Some("abc".to_string());
    assert_eq!(Config::from_vars(v, None).err(), Some(ConfigError::FirmwareDirNotFound));
    for bad in ["abc", "", "+", "-1", " 9600", "4294967296"] {
        let mut v = vars();
        v.uart_baud = Some(bad.to_string());
        assert_eq!(
            Config::from_vars(v, Some(PathBuf::from("/fw"))).err(),
            Some(ConfigError::InvalidUartBaud),
            "{bad:?}"
        );
    }
}

#[test]
fn port_names_match_by_characters() {
    let names = vec![Some("Señal MIDI".to_string()), Some("ab".to_string())];
    assert_eq!(find_port_index(&names, "ñal"), Some(0));
    assert_eq!(find_port_index(&names, "abc"), None);
    assert_eq!(find_port_index(&names, "b"), Some(1));
}

#[test]
fn uart_baud_accepts_the_whole_u32_range() {
    for (text, baud) in [("4294967295", u32::MAX), ("0012", 12), ("+0", 0), ("7", 7)] {
        let mut v = vars();
        v.uart_baud = Some(text.to_string());
        let c = Config::from_vars(v, Some(PathBuf::from("/fw"))).ok().unwrap();
        assert_eq!(c.uart_baud, baud, "{text:?}");
    }
}

#[test]
fn configured_uart_port_wins_over_autodetect() {
    let mut v = vars();
    v.uart_port = Some("/dev/ttyUSB3".to_string());
    let c = Config::from_vars(v, Some(PathBuf::from("/fw"))).ok().unwrap();
    let r: Result<String, ()> = c.resolve_uart_port(|| panic!("no debe autodetectar"));
    assert_eq!(r, Ok("/dev/ttyUSB3".to_string()));
    let c = Config::from_vars(vars(), Some(PathBuf::from("/fw"))).ok().unwrap();
    let r: Result<String, &str> = c.resolve_uart_port(|| Err("sin puertos"));
    assert_eq!(r, Err("sin puertos"));
}

#[test]
fn first_usb_port_skips_other_kinds() {
    let ports = vec![
        PortEntry { name: "/dev/ttyS0".to_string(), is_usb: false },
        PortEntry { name: "/dev/ttyUSB0".to_string(), is_usb: true },
        PortEntry { name: "/dev/ttyUSB1".to_string(), is_usb: true },
    ];
    assert_eq!(first_usb_port(&ports), Some(1));
    assert_eq!(first_usb_port(&ports[..1].iter().map(|p| PortEntry { name: p.name.clone(), is_usb: p.is_usb }).collect()), None);
}

#[test]
fn find_port_by_name_substring() {
    let names = vec![None, Some("Midi Through".to_string()), Some("UM-ONE MIDI 1".to_string())];
    assert_eq!(find_port_index(&names, "UM-ONE"), Some(2));
    assert_eq!(find_port_index(&names, "MIDI"), Some(2));
    assert_eq!(find_port_index(&names, "Midi"), Some(1));
    assert_eq!(find_port_index(&names, ""), Some(1));
    assert_eq!(find_port_index(&names, "nada"), None);
}

#[test]
fn log_lines_are_split_and_trimmed() {
    let mut a = LineAssembler::new();
    let mut lines = Vec::new();
    for &b in b"[midi_din] listo\r\nIN  [90, 40]  \n\xffok\n" {
        if let Some(l) = a.feed(b) {
            lines.push(l);
        }
    }
    assert_eq!(lines, vec!["[midi_din] listo", "IN  [90, 40]", "\u{FFFD}ok"]);
    assert_eq!(a.feed(b'x'), None);
    assert_eq!(a.feed(b'\n'), Some("x".to_string()));
}

#[test]
fn log_lines_are_the_newline_terminated_segments() {
    let stream = b"boot\n\n  tarea 1  \r\nsin fin";
    let mut a = LineAssembler::new();
    let mut lines = Vec::new();
    for &b in stream.iter() {
        if let Some(l) = a.feed(b) {
            lines.push(l);
        }
    }
    // Un tramo vacío entre dos `\n` es una línea vacía; lo que sigue al
    // último `\n` no forma línea.
    assert_eq!(lines, vec!["boot", "", "  tarea 1"]);
    let mut rest = Vec::new();
    for &b in b"!\n".iter() {
        if let Some(l) = a.feed(b) {
            rest.push(l);
        }
    }
    assert_eq!(rest, vec!["sin fin!"]);
}

#[test]
fn uptime_is_broken_down() {
    let u = uptime_breakdown(3_723_456_789);
    assert_eq!(
        u,
        Uptime {
            total_us: 3_723_456_789,
            total_ms: 3_723_456,
            hours: 1,
            minutes: 2,
            seconds: 3,
            milliseconds: 456,
        }
    );
    let neg = uptime_breakdown(-1_500_000);
    assert_eq!((neg.total_ms, neg.seconds, neg.milliseconds), (-1500, -1, -500));
}
