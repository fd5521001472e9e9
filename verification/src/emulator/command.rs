//! The command lines of the emulators: the server console (`button press 3`,
//! `encoder rotate 0 -5`, `touch swipe 0 0 100 0`, `help`, `quit`) and the
//! manager console (`create <serial>`, `delete <serial>`, `list`,
//! `control <serial> <command> ...`, `help`, `quit`).

use vstd::prelude::*;
use crate::emulator::payload::{
    button_event_payload, button_payload, encoder_press_payload, encoder_rotate_payload, press_payload,
    rotate_payload, touch_payload, touch_payload_spec,
};
use crate::text::{
    decimal, push_decimal, push_signed_decimal, push_text, signed_decimal, concat, lemma_parse_unsigned_range, lower, parse_i8, parse_signed, parse_u16, parse_u8, parse_unsigned, split_whitespace,
    string_is, string_of, string_views, to_lowercase, words,
};

verus! {

/// An input event to send to the clients of an emulated device.
#[derive(Debug, Clone, Copy, PartialEq, Eq, Structural)]
pub enum ControlCommand {
    ButtonPress(u8),
    ButtonRelease(u8),
    EncoderRotate(u8, i8),
    EncoderPress(u8),
    EncoderRelease(u8),
    /// Touch type (0x01 tap, 0x02 press, 0x03 swipe), start point, end point of a swipe.
    Touch(u8, u16, u16, Option<u16>, Option<u16>),
}

/// A command of the server console.
#[derive(Debug, Clone, Copy, PartialEq, Eq, Structural)]
pub enum Command {
    Control(ControlCommand),
    Help,
    Quit,
}

/// A command of the manager console.
#[derive(Debug, Clone)]
pub enum ManagerCommand {
    Create(String),
    Delete(String),
    List,
    Control(String, ControlCommand),
    Help,
    Quit,
}

/// A manager command, with its serial numbers as character sequences.
pub enum ManagerRequest {
    Create(Seq<char>),
    Delete(Seq<char>),
    List,
    Control(Seq<char>, ControlCommand),
    Help,
    Quit,
}

impl View for ManagerCommand {
    type V = ManagerRequest;

    open spec fn view(&self) -> ManagerRequest {
        match self {
            ManagerCommand::Create(s) => ManagerRequest::Create(s@),
            ManagerCommand::Delete(s) => ManagerRequest::Delete(s@),
            ManagerCommand::List => ManagerRequest::List,
            ManagerCommand::Control(s, c) => ManagerRequest::Control(s@, *c),
            ManagerCommand::Help => ManagerRequest::Help,
            ManagerCommand::Quit => ManagerRequest::Quit,
        }
    }
}

/// The usage texts of the two consoles, for a control command given without
/// enough arguments.
pub struct UsageTexts {
    pub button: &'static str,
    pub encoder: &'static str,
    pub rotate: &'static str,
    pub touch: &'static str,
    pub swipe: &'static str,
}

/// Whether an executable result is the specified one (the error by its text).
pub open spec fn same_result<T>(r: Result<T, String>, s: Result<T, Seq<char>>) -> bool {
    match r {
        Ok(c) => s == Ok::<T, Seq<char>>(c),
        Err(e) => s == Err::<T, Seq<char>>(e@),
    }
}

/// A button command whose action is the word at `b` and whose index follows it.
pub open spec fn button_result(w: Seq<Seq<char>>, b: int, u: UsageTexts) -> Result<ControlCommand, Seq<char>> {
    if w.len() < b + 2 {
        Err(u.button@)
    } else {
        let action = lower(w[b]);
        match parse_unsigned(w[b + 1], 255) {
            None => Err("Invalid button index (0-31)"@),
            Some(i) => if i >= 32 {
                Err("Button index out of range (0-31)"@)
            } else if action == "press"@ {
                Ok(ControlCommand::ButtonPress(i as u8))
            } else if action == "release"@ {
                Ok(ControlCommand::ButtonRelease(i as u8))
            } else {
                Err("Invalid button action: use 'press' or 'release'"@)
            },
        }
    }
}

/// An encoder command whose action is the word at `b`, followed by the index and, to rotate, the delta.
pub open spec fn encoder_result(w: Seq<Seq<char>>, b: int, u: UsageTexts) -> Result<ControlCommand, Seq<char>> {
    if w.len() < b + 2 {
        Err(u.encoder@)
    } else {
        let action = lower(w[b]);
        match parse_unsigned(w[b + 1], 255) {
            None => Err("Invalid encoder index (0-1)"@),
            Some(i) => if i >= 2 {
                Err("Encoder index out of range (0-1)"@)
            } else if action == "rotate"@ {
                if w.len() < b + 3 {
                    Err(u.rotate@)
                } else {
                    match parse_signed(w[b + 2], -128, 127) {
                        None => Err("Invalid delta (-128 to 127)"@),
                        Some(d) => Ok(ControlCommand::EncoderRotate(i as u8, d as i8)),
                    }
                }
            } else if action == "press"@ {
                Ok(ControlCommand::EncoderPress(i as u8))
            } else if action == "release"@ {
                Ok(ControlCommand::EncoderRelease(i as u8))
            } else {
                Err("Invalid encoder action: use 'rotate', 'press', or 'release'"@)
            },
        }
    }
}

/// A touch command whose action is the word at `b`, followed by its coordinates.
pub open spec fn touch_result(w: Seq<Seq<char>>, b: int, u: UsageTexts) -> Result<ControlCommand, Seq<char>> {
    if w.len() < b + 3 {
        Err(u.touch@)
    } else {
        let action = lower(w[b]);
        if action == "tap"@ || action == "press"@ {
            match (parse_unsigned(w[b + 1], 65535), parse_unsigned(w[b + 2], 65535)) {
                (None, _) => Err("Invalid x coordinate"@),
                (Some(_), None) => Err("Invalid y coordinate"@),
                (Some(x), Some(y)) => Ok(
                    ControlCommand::Touch(if action == "tap"@ { 0x01u8 } else { 0x02u8 }, x as u16, y as u16, None, None),
                ),
            }
        } else if action == "swipe"@ {
            if w.len() < b + 5 {
                Err(u.swipe@)
            } else {
                match (
                    parse_unsigned(w[b + 1], 65535),
                    parse_unsigned(w[b + 2], 65535),
                    parse_unsigned(w[b + 3], 65535),
                    parse_unsigned(w[b + 4], 65535),
                ) {
                    (None, _, _, _) => Err("Invalid x1 coordinate"@),
                    (Some(_), None, _, _) => Err("Invalid y1 coordinate"@),
                    (Some(_), Some(_), None, _) => Err("Invalid x2 coordinate"@),
                    (Some(_), Some(_), Some(_), None) => Err("Invalid y2 coordinate"@),
                    (Some(x1), Some(y1), Some(x2), Some(y2)) => Ok(
                        ControlCommand::Touch(0x03u8, x1 as u16, y1 as u16, Some(x2 as u16), Some(y2 as u16)),
                    ),
                }
            }
        } else {
            Err("Invalid touch action: use 'tap', 'press', or 'swipe'"@)
        }
    }
}

/// The control command of kind `kind` (button, encoder or touch) whose action
/// is the word at `b`; `None` for another kind.
pub open spec fn control_result(w: Seq<Seq<char>>, b: int, kind: Seq<char>, u: UsageTexts) -> Option<
    Result<ControlCommand, Seq<char>>,
> {
    if kind == "button"@ {
        Some(button_result(w, b, u))
    } else if kind == "encoder"@ {
        Some(encoder_result(w, b, u))
    } else if kind == "touch"@ {
        Some(touch_result(w, b, u))
    } else {
        None
    }
}

/// Parse a control command of kind `kind` whose action is `parts[b]`.
fn parse_control(parts: &Vec<String>, b: usize, kind: &String, u: &UsageTexts) -> (r: Option<
    Result<ControlCommand, String>,
>)
    requires
        1 <= b <= 3,
    ensures
        match control_result(string_views(parts@), b as int, kind@, *u) {
            Some(s) => r matches Some(x) && same_result(x, s),
            None => r is None,
        },
{
    let ghost w = string_views(parts@);
    if string_is(kind, "button") {
        if parts.len() < b + 2 {
            return Some(Err(string_of(u.button)));
        }
        let action = to_lowercase(parts[b].as_str());
        proof {
            lemma_parse_unsigned_range(w[b + 1], 255);
        }
        let index = match parse_u8(parts[b + 1].as_str()) {
            Some(i) => i,
            None => return Some(Err(string_of("Invalid button index (0-31)"))),
        };
        if index >= 32 {
            return Some(Err(string_of("Button index out of range (0-31)")));
        }
        if string_is(&action, "press") {
            Some(Ok(ControlCommand::ButtonPress(index)))
        } else if string_is(&action, "release") {
            Some(Ok(ControlCommand::ButtonRelease(index)))
        } else {
            Some(Err(string_of("Invalid button action: use 'press' or 'release'")))
        }
    } else if string_is(kind, "encoder") {
        if parts.len() < b + 2 {
            return Some(Err(string_of(u.encoder)));
        }
        let action = to_lowercase(parts[b].as_str());
        proof {
            lemma_parse_unsigned_range(w[b + 1], 255);
        }
        let index = match parse_u8(parts[b + 1].as_str()) {
            Some(i) => i,
            None => return Some(Err(string_of("Invalid encoder index (0-1)"))),
        };
        if index >= 2 {
            return Some(Err(string_of("Encoder index out of range (0-1)")));
        }
        if string_is(&action, "rotate") {
            if parts.len() < b + 3 {
                return Some(Err(string_of(u.rotate)));
            }
            match parse_i8(parts[b + 2].as_str()) {
                Some(d) => Some(Ok(ControlCommand::EncoderRotate(index, d))),
                None => Some(Err(string_of("Invalid delta (-128 to 127)"))),
            }
        } else if string_is(&action, "press") {
            Some(Ok(ControlCommand::EncoderPress(index)))
        } else if string_is(&action, "release") {
            Some(Ok(ControlCommand::EncoderRelease(index)))
        } else {
            Some(Err(string_of("Invalid encoder action: use 'rotate', 'press', or 'release'")))
        }
    } else if string_is(kind, "touch") {
        if parts.len() < b + 3 {
            return Some(Err(string_of(u.touch)));
        }
        let action = to_lowercase(parts[b].as_str());
        let tap = string_is(&action, "tap");
        if tap || string_is(&action, "press") {
            let x = match parse_u16(parts[b + 1].as_str()) {
                Some(v) => v,
                None => return Some(Err(string_of("Invalid x coordinate"))),
            };
            let y = match parse_u16(parts[b + 2].as_str()) {
                Some(v) => v,
                None => return Some(Err(string_of("Invalid y coordinate"))),
            };
            let touch_type: u8 = if tap { 0x01 } else { 0x02 };
            Some(Ok(ControlCommand::Touch(touch_type, x, y, None, None)))
        } else if string_is(&action, "swipe") {
            if parts.len() < b + 5 {
                return Some(Err(string_of(u.swipe)));
            }
            let x1 = match parse_u16(parts[b + 1].as_str()) {
                Some(v) => v,
                None => return Some(Err(string_of("Invalid x1 coordinate"))),
            };
            let y1 = match parse_u16(parts[b + 2].as_str()) {
                Some(v) => v,
                None => return Some(Err(string_of("Invalid y1 coordinate"))),
            };
            let x2 = match parse_u16(parts[b + 3].as_str()) {
                Some(v) => v,
                None => return Some(Err(string_of("Invalid x2 coordinate"))),
            };
            let y2 = match parse_u16(parts[b + 4].as_str()) {
                Some(v) => v,
                None => return Some(Err(string_of("Invalid y2 coordinate"))),
            };
            Some(Ok(ControlCommand::Touch(0x03, x1, y1, Some(x2), Some(y2))))
        } else {
            Some(Err(string_of("Invalid touch action: use 'tap', 'press', or 'swipe'")))
        }
    } else {
        None
    }
}

/// The usage texts of the server console.
pub open spec fn server_usage() -> UsageTexts {
    UsageTexts {
        button: "Usage: button press <index> | button release <index>",
        encoder: "Usage: encoder rotate/press/release <index> [delta]",
        rotate: "Usage: encoder rotate <index> <delta>",
        touch: "Usage: touch tap/press <x> <y> | touch swipe <x1> <y1> <x2> <y2>",
        swipe: "Usage: touch swipe <x1> <y1> <x2> <y2>",
    }
}

/// The usage texts of the `control` command of the manager console.
pub open spec fn manager_usage() -> UsageTexts {
    UsageTexts {
        button: "Usage: control <serial> button press/release <index>",
        encoder: "Usage: control <serial> encoder rotate/press/release <index> [delta]",
        rotate: "Usage: control <serial> encoder rotate <index> <delta>",
        touch: "Usage: control <serial> touch tap/press <x> <y> | touch swipe <x1> <y1> <x2> <y2>",
        swipe: "Usage: control <serial> touch swipe <x1> <y1> <x2> <y2>",
    }
}

/// The error for a command word that no console command has.
pub open spec fn unknown_command(word: Seq<char>) -> Seq<char> {
    "Unknown command: "@ + word + ". Type 'help' for available commands"@
}

/// The server console command that the words `w` of a line make.
pub open spec fn command_result(w: Seq<Seq<char>>) -> Result<Command, Seq<char>> {
    if w.len() == 0 {
        Err("Empty command"@)
    } else {
        let head = lower(w[0]);
        match control_result(w, 1, head, server_usage()) {
            Some(Ok(c)) => Ok(Command::Control(c)),
            Some(Err(e)) => Err(e),
            None => if head == "help"@ {
                Ok(Command::Help)
            } else if head == "quit"@ || head == "exit"@ {
                Ok(Command::Quit)
            } else {
                Err(unknown_command(w[0]))
            },
        }
    }
}

/// The error text of an unknown command word.
fn unknown_command_text(word: &String) -> (e: String)
    ensures
        e@ == unknown_command(word@),
{
    let e = concat(string_of("Unknown command: "), word.as_str());
    concat(e, ". Type 'help' for available commands")
}

/// Parse a line of the server console.
pub fn parse_command(line: &str) -> (r: Result<Command, String>)
    ensures
        same_result(r, command_result(words(line@))),
{
    let parts = split_whitespace(line);
    if parts.len() == 0 {
        return Err(string_of("Empty command"));
    }
    let head = to_lowercase(parts[0].as_str());
    let usage = UsageTexts {
        button: "Usage: button press <index> | button release <index>",
        encoder: "Usage: encoder rotate/press/release <index> [delta]",
        rotate: "Usage: encoder rotate <index> <delta>",
        touch: "Usage: touch tap/press <x> <y> | touch swipe <x1> <y1> <x2> <y2>",
        swipe: "Usage: touch swipe <x1> <y1> <x2> <y2>",
    };
    match parse_control(&parts, 1, &head, &usage) {
        Some(Ok(c)) => Ok(Command::Control(c)),
        Some(Err(e)) => Err(e),
        None => {
            if string_is(&head, "help") {
                Ok(Command::Help)
            } else if string_is(&head, "quit") || string_is(&head, "exit") {
                Ok(Command::Quit)
            } else {
                Err(unknown_command_text(&parts[0]))
            }
        },
    }
}

/// The manager console command that the words `w` of a line make.
pub open spec fn manager_result(w: Seq<Seq<char>>) -> Result<ManagerRequest, Seq<char>> {
    if w.len() == 0 {
        Err("Empty command"@)
    } else {
        let head = lower(w[0]);
        if head == "create"@ {
            if w.len() < 2 { Err("Usage: create <serial_number>"@) } else { Ok(ManagerRequest::Create(w[1])) }
        } else if head == "delete"@ || head == "remove"@ {
            if w.len() < 2 { Err("Usage: delete <serial_number>"@) } else { Ok(ManagerRequest::Delete(w[1])) }
        } else if head == "list"@ {
            Ok(ManagerRequest::List)
        } else if head == "control"@ {
            if w.len() < 4 {
                Err("Usage: control <serial> <command> [args...]"@)
            } else {
                let kind = lower(w[2]);
                match control_result(w, 3, kind, manager_usage()) {
                    Some(Ok(c)) => Ok(ManagerRequest::Control(w[1], c)),
                    Some(Err(e)) => Err(e),
                    None => Err("Unknown control command: "@ + kind + ". Use 'button', 'encoder', or 'touch'"@),
                }
            }
        } else if head == "help"@ {
            Ok(ManagerRequest::Help)
        } else if head == "quit"@ || head == "exit"@ {
            Ok(ManagerRequest::Quit)
        } else {
            Err(unknown_command(w[0]))
        }
    }
}

/// Whether an executable manager command result is the specified one.
pub open spec fn same_manager_result(r: Result<ManagerCommand, String>, s: Result<ManagerRequest, Seq<char>>) -> bool {
    match r {
        Ok(c) => s == Ok::<ManagerRequest, Seq<char>>(c@),
        Err(e) => s == Err::<ManagerRequest, Seq<char>>(e@),
    }
}

/// Parse a line of the manager console.
pub fn parse_manager_command(line: &str) -> (r: Result<ManagerCommand, String>)
    ensures
        same_manager_result(r, manager_result(words(line@))),
{
    let parts = split_whitespace(line);
    if parts.len() == 0 {
        return Err(string_of("Empty command"));
    }
    let head = to_lowercase(parts[0].as_str());
    if string_is(&head, "create") {
        if parts.len() < 2 {
            return Err(string_of("Usage: create <serial_number>"));
        }
        Ok(ManagerCommand::Create(parts[1].clone()))
    } else if string_is(&head, "delete") || string_is(&head, "remove") {
        if parts.len() < 2 {
            return Err(string_of("Usage: delete <serial_number>"));
        }
        Ok(ManagerCommand::Delete(parts[1].clone()))
    } else if string_is(&head, "list") {
        Ok(ManagerCommand::List)
    } else if string_is(&head, "control") {
        if parts.len() < 4 {
            return Err(string_of("Usage: control <serial> <command> [args...]"));
        }
        let serial = parts[1].clone();
        let kind = to_lowercase(parts[2].as_str());
        let usage = UsageTexts {
            button: "Usage: control <serial> button press/release <index>",
            encoder: "Usage: control <serial> encoder rotate/press/release <index> [delta]",
            rotate: "Usage: control <serial> encoder rotate <index> <delta>",
            touch: "Usage: control <serial> touch tap/press <x> <y> | touch swipe <x1> <y1> <x2> <y2>",
            swipe: "Usage: control <serial> touch swipe <x1> <y1> <x2> <y2>",
        };
        match parse_control(&parts, 3, &kind, &usage) {
            Some(Ok(c)) => Ok(ManagerCommand::Control(serial, c)),
            Some(Err(e)) => Err(e),
            None => {
                let e = concat(string_of("Unknown control command: "), kind.as_str());
                Err(concat(e, ". Use 'button', 'encoder', or 'touch'"))
            },
        }
    } else if string_is(&head, "help") {
        Ok(ManagerCommand::Help)
    } else if string_is(&head, "quit") || string_is(&head, "exit") {
        Ok(ManagerCommand::Quit)
    } else {
        Err(unknown_command_text(&parts[0]))
    }
}

/// The event payload that a control command sends to every client; an index
/// out of range is refused with the text that the sender gives.
pub open spec fn control_payload(c: ControlCommand) -> Result<Seq<u8>, Seq<char>> {
    match c {
        ControlCommand::ButtonPress(i) => if i >= 32 {
            Err("Button index out of range (0-31)"@)
        } else {
            Ok(button_payload(i, true))
        },
        ControlCommand::ButtonRelease(i) => if i >= 32 {
            Err("Button index out of range (0-31)"@)
        } else {
            Ok(button_payload(i, false))
        },
        ControlCommand::EncoderRotate(i, d) => if i >= 2 {
            Err("Encoder index out of range (0-1)"@)
        } else {
            Ok(rotate_payload(i, d))
        },
        ControlCommand::EncoderPress(i) => if i >= 2 {
            Err("Encoder index out of range (0-1)"@)
        } else {
            Ok(press_payload(i, true))
        },
        ControlCommand::EncoderRelease(i) => if i >= 2 {
            Err("Encoder index out of range (0-1)"@)
        } else {
            Ok(press_payload(i, false))
        },
        ControlCommand::Touch(t, x, y, ex, ey) => Ok(touch_payload_spec(t, x, y, ex, ey)),
    }
}

/// The event payload of a control command.
pub fn control_event_payload(c: &ControlCommand) -> (r: Result<Vec<u8>, &'static str>)
    ensures
        match r {
            Ok(p) => control_payload(*c) == Ok::<Seq<u8>, Seq<char>>(p@),
            Err(e) => control_payload(*c) == Err::<Seq<u8>, Seq<char>>(e@),
        },
{
    match *c {
        ControlCommand::ButtonPress(i) => button_event_payload(i, true),
        ControlCommand::ButtonRelease(i) => button_event_payload(i, false),
        ControlCommand::EncoderRotate(i, d) => encoder_rotate_payload(i, d),
        ControlCommand::EncoderPress(i) => encoder_press_payload(i, true),
        ControlCommand::EncoderRelease(i) => encoder_press_payload(i, false),
        ControlCommand::Touch(t, x, y, ex, ey) => Ok(touch_payload(t, x, y, ex, ey)),
    }
}

/// The name of a touch type.
pub open spec fn touch_name_spec(t: u8) -> &'static str {
    if t == 0x01u8 {
        "tap"
    } else if t == 0x02u8 {
        "press"
    } else if t == 0x03u8 {
        "swipe"
    } else {
        "unknown"
    }
}

/// The name of a touch type: tap, press, swipe, or unknown.
pub fn touch_name(t: u8) -> (r: &'static str)
    ensures
        r == touch_name_spec(t),
{
    match t {
        0x01 => "tap",
        0x02 => "press",
        0x03 => "swipe",
        _ => "unknown",
    }
}

/// The value of an optional coordinate, 0 when absent.
pub open spec fn or_zero(v: Option<u16>) -> u16 {
    match v {
        Some(x) => x,
        None => 0,
    }
}

/// A point `(x,y)` as text.
pub open spec fn point_text(x: u16, y: u16) -> Seq<char> {
    "("@ + decimal(x as nat) + ","@ + decimal(y as nat) + ")"@
}

/// What a control command did, in words (`Button 3 pressed`, `Touch tap at (5,6)`).
pub open spec fn control_summary(c: ControlCommand) -> Seq<char> {
    match c {
        ControlCommand::ButtonPress(i) => "Button "@ + decimal(i as nat) + " pressed"@,
        ControlCommand::ButtonRelease(i) => "Button "@ + decimal(i as nat) + " released"@,
        ControlCommand::EncoderRotate(i, d) => "Encoder "@ + decimal(i as nat) + " rotated by "@ + signed_decimal(
            d as int,
        ),
        ControlCommand::EncoderPress(i) => "Encoder "@ + decimal(i as nat) + " pressed"@,
        ControlCommand::EncoderRelease(i) => "Encoder "@ + decimal(i as nat) + " released"@,
        ControlCommand::Touch(t, x, y, ex, ey) => if t == 0x03u8 {
            "Touch "@ + touch_name_spec(t)@ + " from "@ + point_text(x, y) + " to "@ + point_text(
                or_zero(ex),
                or_zero(ey),
            )
        } else {
            "Touch "@ + touch_name_spec(t)@ + " at "@ + point_text(x, y)
        },
    }
}

fn push_point(s: &mut String, x: u16, y: u16)
    ensures
        final(s)@ == old(s)@ + point_text(x, y),
{
    push_text(s, "(");
    push_decimal(s, x as u64);
    push_text(s, ",");
    push_decimal(s, y as u64);
    push_text(s, ")");
    assert(final(s)@ =~= old(s)@ + point_text(x, y));
}

/// Append what a control command did, in words.
fn push_control_summary(m: &mut String, c: &ControlCommand)
    ensures
        final(m)@ == old(m)@ + control_summary(*c),
{
    match *c {
        ControlCommand::ButtonPress(i) => {
            push_text(m, "Button ");
            push_decimal(m, i as u64);
            push_text(m, " pressed");
        },
        ControlCommand::ButtonRelease(i) => {
            push_text(m, "Button ");
            push_decimal(m, i as u64);
            push_text(m, " released");
        },
        ControlCommand::EncoderRotate(i, d) => {
            push_text(m, "Encoder ");
            push_decimal(m, i as u64);
            push_text(m, " rotated by ");
            push_signed_decimal(m, d as i64);
        },
        ControlCommand::EncoderPress(i) => {
            push_text(m, "Encoder ");
            push_decimal(m, i as u64);
            push_text(m, " pressed");
        },
        ControlCommand::EncoderRelease(i) => {
            push_text(m, "Encoder ");
            push_decimal(m, i as u64);
            push_text(m, " released");
        },
        ControlCommand::Touch(t, x, y, ex, ey) => {
            push_text(m, "Touch ");
            push_text(m, touch_name(t));
            if t == 0x03 {
                push_text(m, " from ");
                push_point(m, x, y);
                push_text(m, " to ");
                let ex0: u16 = match ex {
                    Some(v) => v,
                    None => 0,
                };
                let ey0: u16 = match ey {
                    Some(v) => v,
                    None => 0,
                };
                push_point(m, ex0, ey0);
            } else {
                push_text(m, " at ");
                push_point(m, x, y);
            }
        },
    }
    assert(final(m)@ =~= old(m)@ + control_summary(*c));
}

/// The line that a server console logs after sending a control command:
/// `[Command] ` and what the command did.
pub fn control_log_message(c: &ControlCommand) -> (m: String)
    ensures
        m@ == "[Command] "@ + control_summary(*c),
{
    let mut m = string_of("[Command] ");
    push_control_summary(&mut m, c);
    m
}

/// The line that the manager console prints after sending a control command
/// to the device with serial number `serial`.
pub fn control_sent_message(c: &ControlCommand, serial: &str) -> (m: String)
    ensures
        m@ == control_summary(*c) + " on "@ + serial@,
{
    let mut m = String::new();
    push_control_summary(&mut m, c);
    push_text(&mut m, " on ");
    push_text(&mut m, serial);
    assert(m@ =~= control_summary(*c) + " on "@ + serial@);
    m
}

} // verus!
