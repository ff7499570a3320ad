use drfish::cli::{
    get_port_configuration, parse_baud_rate, parse_port_arg, CliAction, DrFishCli,
    DEFAULT_BAUD_RATE, DEFAULT_SERIAL_PORT,
};
use drfish::data::SerialPortSettings;
use drfish::serial_monitor::SerialLogMonitor;
use drfish::writer::{Key, Routed};

#[test]
fn test_parse_port_arg() {
    let port_arg = "path:115200";
    let result = parse_port_arg(port_arg);
    assert!(result.is_ok());
    let settings = result.unwrap();
    assert_eq!(settings.path, "path");
    assert_eq!(settings.baud_rate, 115200);
}

#[test]
fn test_parse_port_arg_invalid() {
    let port_arg = "path:invalid";
    let result = parse_port_arg(port_arg);
    assert!(result.is_err());
}

#[test]
fn test_parse_port_empty() {
    let port_arg = "";
    let result = parse_port_arg(port_arg);
    assert!(result.is_err());
}

#[test]
fn test_parse_port_default_baudrate() {
    let port_arg = "/dev/ttyUSB0";
    let result = parse_port_arg(port_arg);
    assert!(result.is_ok());
    let settings = result.unwrap();
    assert_eq!(settings.path, "/dev/ttyUSB0");
    assert_eq!(settings.baud_rate, 115200);
}

#[test]
fn test_parse_port_invalid_fields() {
    let port_arg = "path:115200:extra";
    let result = parse_port_arg(port_arg);
    assert!(result.is_err());
}

#[test]
fn port_argument_errors_name_the_fault() {
    assert_eq!(parse_port_arg(""), Err("Empty port argument".to_string()));
    assert_eq!(
        parse_port_arg("path:115200:extra"),
        Err("Invalid port argument: path:115200:extra".to_string())
    );
    assert_eq!(parse_port_arg("a::"), Err("Invalid port argument: a::".to_string()));
    assert_eq!(parse_port_arg("path:invalid"), Err("Invalid baud rate: invalid".to_string()));
    assert_eq!(parse_port_arg("path:"), Err("Invalid baud rate: ".to_string()));
    assert_eq!(parse_port_arg(":"), Err("Invalid baud rate: ".to_string()));
    assert_eq!(parse_port_arg("path:0"), Err("Invalid baud rate: 0".to_string()));
    assert_eq!(parse_port_arg("path: 9600"), Err("Invalid baud rate:  9600".to_string()));
}

#[test]
fn port_argument_keeps_path_and_speed() {
    assert_eq!(
        parse_port_arg("/dev/ttyACM1:9600"),
        Ok(SerialPortSettings { path: "/dev/ttyACM1".to_string(), baud_rate: 9600 })
    );
    assert_eq!(
        parse_port_arg(":9600"),
        Ok(SerialPortSettings { path: "".to_string(), baud_rate: 9600 })
    );
    assert_eq!(
        parse_port_arg("COM\u{e9}:+57600"),
        Ok(SerialPortSettings { path: "COM\u{e9}".to_string(), baud_rate: 57600 })
    );
    assert_eq!(
        parse_port_arg("p:4294967295"),
        Ok(SerialPortSettings { path: "p".to_string(), baud_rate: u32::MAX })
    );
    assert_eq!(parse_port_arg("p:4294967296"), Err("Invalid baud rate: 4294967296".to_string()));
}

#[test]
fn speed_is_read_as_the_standard_parser_reads_it() {
    let samples = [
        "1", "9", "10", "0009600", "115200", "+1", "+0042", "4294967295", "4294967296",
        "99999999999999999999999999", "", "+", "-", "-1", "+-1", "++1", "1+", " 1", "1 ", "1_000",
        "0x10", "12a", "a12", "\u{661}", "1.0",
    ];
    for text in samples {
        let expected = text.parse::<u32>().ok();
        assert_eq!(parse_baud_rate(text), expected, "speed text {:?}", text);
    }
    for text in ["0", "+0", "000"] {
        assert_eq!(text.parse::<u32>().ok(), Some(0));
        assert_eq!(parse_baud_rate(text), None);
    }
}

fn cli_args(list: &[&str]) -> Vec<String> {
    list.iter().map(|s| s.to_string()).collect()
}

#[test]
fn configuration_defaults_without_port_arguments() {
    let expected = vec![SerialPortSettings {
        path: DEFAULT_SERIAL_PORT.to_string(),
        baud_rate: DEFAULT_BAUD_RATE,
    }];
    assert_eq!(DEFAULT_SERIAL_PORT, "/dev/ttyUSB0");
    assert_eq!(DEFAULT_BAUD_RATE, 115200);
    assert_eq!(get_port_configuration(&cli_args(&["drfish"])), Ok(expected.clone()));
    assert_eq!(get_port_configuration(&cli_args(&[])), Ok(expected));
}

#[test]
fn configuration_lists_ports_in_order() {
    let got = get_port_configuration(&cli_args(&["drfish", "/dev/a:9600", "/dev/b", "/dev/c:1"]));
    assert_eq!(
        got,
        Ok(vec![
            SerialPortSettings { path: "/dev/a".to_string(), baud_rate: 9600 },
            SerialPortSettings { path: "/dev/b".to_string(), baud_rate: 115200 },
            SerialPortSettings { path: "/dev/c".to_string(), baud_rate: 1 },
        ])
    );
}

#[test]
fn configuration_fails_on_the_first_bad_argument() {
    let got = get_port_configuration(&cli_args(&["drfish", "/dev/a", "b:x", "c:1:2", ""]));
    assert_eq!(got, Err("Invalid baud rate: x".to_string()));
    let got = get_port_configuration(&cli_args(&["drfish", "", "b:x"]));
    assert_eq!(got, Err("Empty port argument".to_string()));
}

fn cli_session(path: &str) -> (SerialLogMonitor, tokio::sync::mpsc::UnboundedReceiver<u8>) {
    let (sender, receiver) = tokio::sync::mpsc::unbounded_channel::<u8>();
    let settings = SerialPortSettings { path: path.to_string(), baud_rate: 115200 };
    (SerialLogMonitor::new(settings, sender), receiver)
}

#[test]
fn front_starts_from_the_command_line() {
    let cli = DrFishCli::new(&cli_args(&["drfish", "/dev/a:9600"])).ok().unwrap();
    assert_eq!(
        cli.port_configuration,
        vec![SerialPortSettings { path: "/dev/a".to_string(), baud_rate: 9600 }]
    );
    assert_eq!(cli.get_current_writer_name(), None);
    assert_eq!(
        DrFishCli::new(&cli_args(&["drfish", "a:b"])).err(),
        Some("Invalid baud rate: b".to_string())
    );
}

#[test]
fn exit_key_asks_to_leave() {
    let mut cli = DrFishCli::new(&cli_args(&["drfish"])).ok().unwrap();
    let (a, mut rx_a) = cli_session("/dev/a");
    cli.spawn_monitors(&vec![a]);
    let outcome = cli.handle_key_press(Key::Ctrl('x'));
    assert_eq!(outcome.action, Some(CliAction::Break));
    assert_eq!(outcome.notice, Some("Exiting...\r\n".to_string()));
    assert_eq!(outcome.routed, Routed::Nothing);
    assert!(rx_a.try_recv().is_err());
    assert_eq!(cli.get_current_writer_name(), Some("/dev/a".to_string()));
}

#[test]
fn switch_key_moves_to_the_next_destination() {
    let mut cli = DrFishCli::new(&cli_args(&["drfish"])).ok().unwrap();
    let outcome = cli.handle_key_press(Key::Ctrl('z'));
    assert_eq!(outcome.action, None);
    assert_eq!(outcome.notice, Some("No other writer available\r\n".to_string()));
    assert_eq!(outcome.routed, Routed::Nothing);

    let (a, mut rx_a) = cli_session("/dev/a");
    let (b, mut rx_b) = cli_session("/dev/b");
    let monitors = vec![a, b];
    cli.spawn_monitors(&monitors);
    assert_eq!(cli.get_current_writer_name(), Some("/dev/a".to_string()));

    let outcome = cli.handle_key_press(Key::Ctrl('z'));
    assert_eq!(outcome.action, None);
    assert_eq!(outcome.notice, Some("Switching to /dev/b\r\n".to_string()));
    assert_eq!(outcome.routed, Routed::Nothing);
    assert_eq!(cli.get_current_writer_name(), Some("/dev/b".to_string()));

    let outcome = cli.handle_key_press(Key::Char('k'));
    assert_eq!(outcome.action, None);
    assert_eq!(outcome.notice, None);
    assert_eq!(outcome.routed, Routed::Delivered(b'k'));
    assert_eq!(rx_b.try_recv().ok(), Some(b'k'));
    assert!(rx_a.try_recv().is_err());

    let outcome = cli.handle_key_press(Key::Ctrl('z'));
    assert_eq!(outcome.notice, Some("Switching to /dev/a\r\n".to_string()));
    assert_eq!(cli.get_current_writer_name(), Some("/dev/a".to_string()));
}

#[test]
fn keys_are_forwarded_to_the_active_destination() {
    let mut cli = DrFishCli::new(&cli_args(&["drfish"])).ok().unwrap();
    let (a, mut rx_a) = cli_session("/dev/a");
    cli.spawn_monitors(&vec![a]);

    let outcome = cli.handle_key_press(Key::Char('\n'));
    assert_eq!(outcome.routed, Routed::Delivered(b'\r'));
    assert_eq!(outcome.action, None);
    assert_eq!(outcome.notice, None);
    assert_eq!(rx_a.try_recv().ok(), Some(13));

    let outcome = cli.handle_key_press(Key::Ctrl('c'));
    assert_eq!(outcome.routed, Routed::Delivered(3));
    assert_eq!(rx_a.try_recv().ok(), Some(3));

    let outcome = cli.handle_key_press(Key::Other);
    assert_eq!(outcome.routed, Routed::Nothing);
    assert_eq!(outcome.action, None);
    assert_eq!(outcome.notice, None);
    assert!(rx_a.try_recv().is_err());
}

#[test]
fn keys_without_a_destination_go_nowhere() {
    let mut cli = DrFishCli::new(&cli_args(&["drfish"])).ok().unwrap();
    let outcome = cli.handle_key_press(Key::Char('a'));
    assert_eq!(outcome.routed, Routed::Nothing);
    assert_eq!(outcome.action, None);
    assert_eq!(outcome.notice, None);
}

#[test]
fn sessions_are_registered_once_under_their_names() {
    let mut cli = DrFishCli::new(&cli_args(&["drfish"])).ok().unwrap();
    let (a, _rx_a) = cli_session("/dev/a");
    let (b, _rx_b) = cli_session("/dev/b");
    let (a2, _rx_a2) = cli_session("/dev/a");
    cli.spawn_monitors(&vec![a, b, a2]);
    assert_eq!(cli.get_current_writer_name(), Some("/dev/a".to_string()));
    assert_eq!(cli.writer.switch_to_next_writer(), Some("/dev/b".to_string()));
    assert_eq!(cli.writer.switch_to_next_writer(), Some("/dev/a".to_string()));
}
