use streamdeck_cona_rs::client::{color_from_word, parse_client_command, ClientCommand};
use streamdeck_cona_rs::emulator::command::{
    control_event_payload, control_log_message, control_sent_message, parse_command, parse_manager_command, touch_name, Command,
    ControlCommand, ManagerCommand,
};
use streamdeck_cona_rs::emulator::logging::{format_time, log_level_from_setting, LogLevel, ThrottledLogger};
use streamdeck_cona_rs::text::{is_whitespace, parse_i8, parse_u16, parse_u8, split_whitespace};

#[test]
fn server_console_commands() {
    assert_eq!(parse_command("button press 3"), Ok(Command::Control(ControlCommand::ButtonPress(3))));
    assert_eq!(parse_command("  BUTTON Release 31 "), Ok(Command::Control(ControlCommand::ButtonRelease(31))));
    assert_eq!(parse_command("encoder rotate 1 -5"), Ok(Command::Control(ControlCommand::EncoderRotate(1, -5))));
    assert_eq!(parse_command("encoder press 0"), Ok(Command::Control(ControlCommand::EncoderPress(0))));
    assert_eq!(parse_command("encoder release 1"), Ok(Command::Control(ControlCommand::EncoderRelease(1))));
    assert_eq!(
        parse_command("touch tap 10 20"),
        Ok(Command::Control(ControlCommand::Touch(0x01, 10, 20, None, None)))
    );
    assert_eq!(
        parse_command("touch press 1 2"),
        Ok(Command::Control(ControlCommand::Touch(0x02, 1, 2, None, None)))
    );
    assert_eq!(
        parse_command("touch swipe 0 0 100 5"),
        Ok(Command::Control(ControlCommand::Touch(0x03, 0, 0, Some(100), Some(5))))
    );
    assert_eq!(parse_command("help"), Ok(Command::Help));
    assert_eq!(parse_command("Quit"), Ok(Command::Quit));
    assert_eq!(parse_command("exit"), Ok(Command::Quit));
}

#[test]
fn server_console_errors() {
    assert_eq!(parse_command("   "), Err("Empty command".to_string()));
    assert_eq!(parse_command("button press"), Err("Usage: button press <index> | button release <index>".to_string()));
    assert_eq!(parse_command("button press x"), Err("Invalid button index (0-31)".to_string()));
    assert_eq!(parse_command("button press 32"), Err("Button index out of range (0-31)".to_string()));
    assert_eq!(parse_command("button hold 1"), Err("Invalid button action: use 'press' or 'release'".to_string()));
    assert_eq!(parse_command("encoder rotate 0"), Err("Usage: encoder rotate <index> <delta>".to_string()));
    assert_eq!(parse_command("encoder rotate 0 200"), Err("Invalid delta (-128 to 127)".to_string()));
    assert_eq!(parse_command("encoder press 2"), Err("Encoder index out of range (0-1)".to_string()));
    assert_eq!(parse_command("encoder spin 0"), Err("Invalid encoder action: use 'rotate', 'press', or 'release'".to_string()));
    assert_eq!(parse_command("encoder x"), Err("Usage: encoder rotate/press/release <index> [delta]".to_string()));
    assert_eq!(
        parse_command("touch tap 1"),
        Err("Usage: touch tap/press <x> <y> | touch swipe <x1> <y1> <x2> <y2>".to_string())
    );
    assert_eq!(parse_command("touch tap a 1"), Err("Invalid x coordinate".to_string()));
    assert_eq!(parse_command("touch tap 1 70000"), Err("Invalid y coordinate".to_string()));
    assert_eq!(parse_command("touch swipe 1 2 3"), Err("Usage: touch swipe <x1> <y1> <x2> <y2>".to_string()));
    assert_eq!(parse_command("touch swipe 1 2 3 z"), Err("Invalid y2 coordinate".to_string()));
    assert_eq!(parse_command("touch poke 1 2"), Err("Invalid touch action: use 'tap', 'press', or 'swipe'".to_string()));
    assert_eq!(parse_command("Jump"), Err("Unknown command: Jump. Type 'help' for available commands".to_string()));
}

#[test]
fn manager_console_commands() {
    match parse_manager_command("create SN-1") {
        Ok(ManagerCommand::Create(s)) => assert_eq!(s, "SN-1"),
        _ => panic!("expected create"),
    }
    match parse_manager_command("remove SN-1") {
        Ok(ManagerCommand::Delete(s)) => assert_eq!(s, "SN-1"),
        _ => panic!("expected delete"),
    }
    assert!(matches!(parse_manager_command("list"), Ok(ManagerCommand::List)));
    match parse_manager_command("control SN-2 button press 4") {
        Ok(ManagerCommand::Control(s, c)) => {
            assert_eq!(s, "SN-2");
            assert_eq!(c, ControlCommand::ButtonPress(4));
        },
        _ => panic!("expected control"),
    }
    match parse_manager_command("control x touch swipe 1 2 3 4") {
        Ok(ManagerCommand::Control(_, c)) => assert_eq!(c, ControlCommand::Touch(3, 1, 2, Some(3), Some(4))),
        _ => panic!("expected control"),
    }
    assert!(matches!(parse_manager_command("HELP"), Ok(ManagerCommand::Help)));
    assert!(matches!(parse_manager_command("quit"), Ok(ManagerCommand::Quit)));
}

#[test]
fn manager_console_errors() {
    assert_eq!(parse_manager_command("").unwrap_err(), "Empty command");
    assert_eq!(parse_manager_command("create").unwrap_err(), "Usage: create <serial_number>");
    assert_eq!(parse_manager_command("delete").unwrap_err(), "Usage: delete <serial_number>");
    assert_eq!(parse_manager_command("control a b").unwrap_err(), "Usage: control <serial> <command> [args...]");
    assert_eq!(
        parse_manager_command("control a button press").unwrap_err(),
        "Usage: control <serial> button press/release <index>"
    );
    assert_eq!(
        parse_manager_command("control a encoder rotate 1").unwrap_err(),
        "Usage: control <serial> encoder rotate <index> <delta>"
    );
    assert_eq!(
        parse_manager_command("control a touch swipe 1 2 3").unwrap_err(),
        "Usage: control <serial> touch swipe <x1> <y1> <x2> <y2>"
    );
    assert_eq!(
        parse_manager_command("control a Wheel x").unwrap_err(),
        "Unknown control command: wheel. Use 'button', 'encoder', or 'touch'"
    );
    assert_eq!(parse_manager_command("frob").unwrap_err(), "Unknown command: frob. Type 'help' for available commands");
}

#[test]
fn control_commands_become_event_payloads() {
    assert_eq!(control_event_payload(&ControlCommand::ButtonPress(40)), Err("Button index out of range (0-31)"));
    assert_eq!(control_event_payload(&ControlCommand::EncoderPress(5)), Err("Encoder index out of range (0-1)"));
    assert_eq!(control_event_payload(&ControlCommand::ButtonRelease(0)).unwrap().len(), 36);
    assert_eq!(control_event_payload(&ControlCommand::EncoderRotate(0, 1)).unwrap(), vec![1, 3, 0, 0, 1, 1, 0]);
    assert_eq!(control_event_payload(&ControlCommand::Touch(2, 3, 4, None, None)).unwrap().len(), 10);
}

#[test]
fn control_log_lines() {
    assert_eq!(control_log_message(&ControlCommand::ButtonPress(12)), "[Command] Button 12 pressed");
    assert_eq!(control_log_message(&ControlCommand::ButtonRelease(0)), "[Command] Button 0 released");
    assert_eq!(control_log_message(&ControlCommand::EncoderRotate(1, -128)), "[Command] Encoder 1 rotated by -128");
    assert_eq!(control_log_message(&ControlCommand::EncoderPress(1)), "[Command] Encoder 1 pressed");
    assert_eq!(control_log_message(&ControlCommand::EncoderRelease(0)), "[Command] Encoder 0 released");
    assert_eq!(control_log_message(&ControlCommand::Touch(1, 5, 6, None, None)), "[Command] Touch tap at (5,6)");
    assert_eq!(
        control_log_message(&ControlCommand::Touch(3, 5, 6, Some(700), None)),
        "[Command] Touch swipe from (5,6) to (700,0)"
    );
    assert_eq!(control_sent_message(&ControlCommand::EncoderRotate(0, 7), "SN9"), "Encoder 0 rotated by 7 on SN9");
    assert_eq!(touch_name(2), "press");
    assert_eq!(touch_name(9), "unknown");
}

#[test]
fn client_console_commands() {
    assert!(matches!(parse_client_command("   "), ClientCommand::Empty));
    assert!(matches!(parse_client_command("q"), ClientCommand::Quit));
    assert!(matches!(parse_client_command("h"), ClientCommand::Help));
    assert!(matches!(parse_client_command("brightness 100"), ClientCommand::Brightness(100)));
    assert!(matches!(parse_client_command("reset"), ClientCommand::Reset));
    assert!(matches!(parse_client_command("events"), ClientCommand::Events));
    match parse_client_command("button 7 /tmp/a.png") {
        ClientCommand::Button(i, p) => {
            assert_eq!(i, 7);
            assert_eq!(p, "/tmp/a.png");
        },
        _ => panic!("expected a button command"),
    }
    assert!(matches!(parse_client_command("encoder 1 255 0 9"), ClientCommand::Encoder(1, 255, 0, 9)));
}

fn invalid_lines(c: ClientCommand) -> Vec<String> {
    match c {
        ClientCommand::Invalid(lines) => lines,
        _ => panic!("expected an invalid command"),
    }
}

#[test]
fn client_console_errors() {
    assert_eq!(invalid_lines(parse_client_command("brightness")), vec!["Usage: brightness <0-100>"]);
    assert_eq!(invalid_lines(parse_client_command("brightness 101")), vec!["Brightness must be 0-100"]);
    assert_eq!(invalid_lines(parse_client_command("button 32 x")), vec!["Button index must be 0-31"]);
    assert_eq!(invalid_lines(parse_client_command("button 1")), vec!["Usage: button <0-31> <image_path>"]);
    assert_eq!(
        invalid_lines(parse_client_command("encoder 2 1 1 1")),
        vec!["Usage: encoder <0-1> <r> <g> <b> (all 0-255)"]
    );
    assert_eq!(
        invalid_lines(parse_client_command("ring 0")),
        vec!["Usage: ring <0-1> <colors...>", "  Colors format: r,g,b r,g,b ... (up to 24 colors)"]
    );
    assert_eq!(invalid_lines(parse_client_command("ring 3 1,2,3")), vec!["Encoder index must be 0 or 1"]);
    assert_eq!(
        invalid_lines(parse_client_command("ring 1 red")),
        vec!["Invalid color format: red", "No valid colors provided"]
    );
    assert_eq!(
        invalid_lines(parse_client_command("Quit")),
        vec!["Unknown command: Quit. Type 'help' for available commands."]
    );
}

#[test]
fn client_ring_colors() {
    match parse_client_command("ring 0 1,2,3 x,1,2 4,5,6") {
        ClientCommand::Ring(e, colors, notes) => {
            assert_eq!(e, 0);
            assert_eq!(colors, vec![(1, 2, 3), (4, 5, 6)]);
            assert_eq!(notes, vec!["Invalid color format: x,1,2"]);
        },
        _ => panic!("expected a ring command"),
    }
    let mut line = String::from("ring 1");
    for i in 0..30 {
        line.push_str(&format!(" {},0,0", i));
    }
    line.push_str(" bad");
    match parse_client_command(&line) {
        ClientCommand::Ring(_, colors, notes) => {
            assert_eq!(colors.len(), 24);
            assert_eq!(colors[23], (23, 0, 0));
            assert!(notes.is_empty());
        },
        _ => panic!("expected a ring command"),
    }
    assert_eq!(color_from_word("1,2,3"), Some((1, 2, 3)));
    assert_eq!(color_from_word("1,2"), None);
    assert_eq!(color_from_word("1,2,3,"), None);
    assert_eq!(color_from_word("256,0,0"), None);
}

#[test]
fn text_parsing() {
    assert_eq!(parse_command("button press +7"), Ok(Command::Control(ControlCommand::ButtonPress(7))));
    assert_eq!(parse_command("button press -1"), Err("Invalid button index (0-31)".to_string()));
    assert_eq!(
        parse_command("touch tap 65535 0"),
        Ok(Command::Control(ControlCommand::Touch(1, 65535, 0, None, None)))
    );
    assert_eq!(parse_command("touch tap 65536 0"), Err("Invalid x coordinate".to_string()));
    assert_eq!(parse_command("encoder rotate 0 -128"), Ok(Command::Control(ControlCommand::EncoderRotate(0, -128))));
    assert_eq!(parse_command("encoder rotate 0 128"), Err("Invalid delta (-128 to 127)".to_string()));
    assert_eq!(split_whitespace(" a  b\tc\n"), vec!["a", "b", "c"]);
}

#[test]
fn log_levels() {
    assert_eq!(LogLevel::from_str("DEBUG"), LogLevel::Debug);
    assert_eq!(LogLevel::from_str("verbose"), LogLevel::Info);
    assert_eq!(LogLevel::Warn.as_str(), "WARN ");
    assert!(LogLevel::Error.enabled(LogLevel::Info));
    assert!(!LogLevel::Trace.enabled(LogLevel::Debug));
    assert_eq!(log_level_from_setting("warn,other=debug"), LogLevel::Warn);
    assert_eq!(log_level_from_setting(" streamdeck_server=TRACE , x"), LogLevel::Trace);
    assert_eq!(log_level_from_setting("bogus"), LogLevel::Info);
}

#[test]
fn time_stamps() {
    assert_eq!(format_time(0), "[00:00:00]");
    assert_eq!(format_time(86399), "[23:59:59]");
    assert_eq!(format_time(3600 * 25 + 61), "[01:01:01]");
}

#[test]
fn throttled_logger_lets_one_through_per_interval() {
    let s = 1_000_000_000u128;
    let mut l = ThrottledLogger::new(2, 10 * s);
    let d = l.should_log(10 * s);
    assert!(d.log);
    assert_eq!(d.skipped, None);
    assert!(!l.should_log(11 * s).log);
    assert!(!l.log(11 * s).log);
    let later = l.should_log(12 * s);
    assert!(later.log);
    assert_eq!(later.skipped, Some(2));
    assert!(!l.should_log(5 * s).log);
}

#[test]
fn whitespace_matches_std() {
    for v in 0u32..0x11_0000 {
        if let Some(c) = char::from_u32(v) {
            assert_eq!(is_whitespace(c), c.is_whitespace(), "code point {:#x}", v);
        }
    }
}

#[test]
fn number_parsing_matches_std() {
    let mut inputs: Vec<String> = vec![
        "", "+", "-", "+-1", "-+1", "00", "007", "+0", "-0", " 1", "1 ", "1a", "a1", "٣", "1_0", "0x10",
    ]
    .into_iter()
    .map(String::from)
    .collect();
    for v in -70000i64..=70000 {
        inputs.push(v.to_string());
        inputs.push(format!("+{}", v));
    }
    inputs.push("99999999999999999999999".to_string());
    for s in &inputs {
        assert_eq!(parse_u8(s), s.parse::<u8>().ok(), "u8 {:?}", s);
        assert_eq!(parse_u16(s), s.parse::<u16>().ok(), "u16 {:?}", s);
        assert_eq!(parse_i8(s), s.parse::<i8>().ok(), "i8 {:?}", s);
    }
}
