//! The interactive client console: what a typed line asks the device to do,
//! or which lines the console answers with instead.

use vstd::prelude::*;
use crate::text::{
    lemma_parse_unsigned_range, parse_u8, parse_unsigned, push_char, split_whitespace, string_is, string_of,
    string_views, words, concat,
};
use crate::protocol::command::MAX_RING_COLORS;

verus! {

/// What a line typed at the client console asks for.
pub enum ClientCommand {
    /// A blank line.
    Empty,
    Quit,
    Help,
    Brightness(u8),
    /// Button index and the path of the image file.
    Button(u8, String),
    /// Encoder index and the red, green and blue values.
    Encoder(u8, u8, u8, u8),
    /// Encoder index, the colors (at least one, at most 24), and the lines to
    /// print first about color words that were not colors.
    Ring(u8, Vec<(u8, u8, u8)>, Vec<String>),
    Reset,
    Events,
    /// The lines to print instead of a command.
    Invalid(Vec<String>),
}

/// A client console command, with its texts as character sequences.
pub enum ClientRequest {
    Empty,
    Quit,
    Help,
    Brightness(u8),
    Button(u8, Seq<char>),
    Encoder(u8, u8, u8, u8),
    Ring(u8, Seq<(u8, u8, u8)>, Seq<Seq<char>>),
    Reset,
    Events,
    Invalid(Seq<Seq<char>>),
}

impl View for ClientCommand {
    type V = ClientRequest;

    open spec fn view(&self) -> ClientRequest {
        match self {
            ClientCommand::Empty => ClientRequest::Empty,
            ClientCommand::Quit => ClientRequest::Quit,
            ClientCommand::Help => ClientRequest::Help,
            ClientCommand::Brightness(b) => ClientRequest::Brightness(*b),
            ClientCommand::Button(i, p) => ClientRequest::Button(*i, p@),
            ClientCommand::Encoder(i, r, g, b) => ClientRequest::Encoder(*i, *r, *g, *b),
            ClientCommand::Ring(i, c, n) => ClientRequest::Ring(*i, c@, string_views(n@)),
            ClientCommand::Reset => ClientRequest::Reset,
            ClientCommand::Events => ClientRequest::Events,
            ClientCommand::Invalid(l) => ClientRequest::Invalid(string_views(l@)),
        }
    }
}

/// The comma-separated fields of `s` (one more than it has commas).
pub open spec fn comma_fields(s: Seq<char>) -> Seq<Seq<char>>
    decreases s.len(),
{
    if s.len() == 0 {
        seq![Seq::<char>::empty()]
    } else {
        let rest = comma_fields(s.drop_last());
        if s.last() == ',' {
            rest.push(Seq::<char>::empty())
        } else {
            rest.update(rest.len() - 1, rest.last().push(s.last()))
        }
    }
}

proof fn lemma_comma_fields_nonempty(s: Seq<char>)
    ensures
        comma_fields(s).len() >= 1,
    decreases s.len(),
{
    if s.len() > 0 {
        lemma_comma_fields_nonempty(s.drop_last());
    }
}

/// The comma-separated fields of a text.
fn split_commas(s: &str) -> (r: Vec<String>)
    ensures
        string_views(r@) == comma_fields(s@),
{
    let n = s.unicode_len();
    let mut done: Vec<String> = Vec::new();
    let mut cur = String::new();
    let mut k: usize = 0;
    proof {
        assert(s@.take(0) =~= Seq::<char>::empty());
        assert(string_views(done@).push(cur@) =~= comma_fields(s@.take(0)));
    }
    while k < n
        invariant
            k <= n,
            n == s@.len(),
            string_views(done@).push(cur@) == comma_fields(s@.take(k as int)),
        decreases n - k,
    {
        let c = s.get_char(k);
        let ghost before = string_views(done@);
        proof {
            assert(s@.take(k + 1).drop_last() =~= s@.take(k as int));
            assert(s@.take(k + 1).last() == c);
            lemma_comma_fields_nonempty(s@.take(k as int));
        }
        if c == ',' {
            done.push(cur);
            cur = String::new();
            assert(string_views(done@) =~= before.push(comma_fields(s@.take(k as int)).last()));
        } else {
            push_char(&mut cur, c);
        }
        k = k + 1;
        assert(string_views(done@).push(cur@) =~= comma_fields(s@.take(k as int)));
    }
    done.push(cur);
    assert(s@.take(n as int) =~= s@);
    done
}

/// The color a word `r,g,b` names, each part a decimal 0-255.
pub open spec fn color_of(s: Seq<char>) -> Option<(u8, u8, u8)> {
    let f = comma_fields(s);
    if f.len() == 3 {
        match (parse_unsigned(f[0], 255), parse_unsigned(f[1], 255), parse_unsigned(f[2], 255)) {
            (Some(r), Some(g), Some(b)) => Some((r as u8, g as u8, b as u8)),
            _ => None,
        }
    } else {
        None
    }
}

/// The colors read from the first `k` color words, and the notes about words
/// that were not colors; reading stops once 24 colors are read.
pub open spec fn ring_scan(ws: Seq<Seq<char>>, k: int) -> (Seq<(u8, u8, u8)>, Seq<Seq<char>>)
    decreases k,
{
    if k <= 0 {
        (Seq::empty(), Seq::empty())
    } else {
        let prev = ring_scan(ws, k - 1);
        if prev.0.len() >= 24 {
            prev
        } else {
            match color_of(ws[k - 1]) {
                Some(c) => (prev.0.push(c), prev.1),
                None => (prev.0, prev.1.push("Invalid color format: "@ + ws[k - 1])),
            }
        }
    }
}

/// The help of the `ring` command.
pub open spec fn ring_usage() -> Seq<Seq<char>> {
    seq!["Usage: ring <0-1> <colors...>"@, "  Colors format: r,g,b r,g,b ... (up to 24 colors)"@]
}

/// What a `ring` line with words `w` asks for.
pub open spec fn ring_request(w: Seq<Seq<char>>) -> ClientRequest {
    if w.len() < 3 {
        ClientRequest::Invalid(ring_usage())
    } else {
        match parse_unsigned(w[1], 255) {
            Some(e) => if e < 2 {
                let (colors, notes) = ring_scan(w.skip(2), w.len() - 2);
                if colors.len() > 0 {
                    ClientRequest::Ring(e as u8, colors, notes)
                } else {
                    ClientRequest::Invalid(notes.push("No valid colors provided"@))
                }
            } else {
                ClientRequest::Invalid(seq!["Encoder index must be 0 or 1"@])
            },
            None => ClientRequest::Invalid(seq!["Encoder index must be 0 or 1"@]),
        }
    }
}

/// What the words `w` of a client console line ask for.
pub open spec fn client_request(w: Seq<Seq<char>>) -> ClientRequest {
    if w.len() == 0 {
        ClientRequest::Empty
    } else {
        let c = w[0];
        if c == "quit"@ || c == "exit"@ || c == "q"@ {
            ClientRequest::Quit
        } else if c == "help"@ || c == "h"@ {
            ClientRequest::Help
        } else if c == "brightness"@ {
            if w.len() < 2 {
                ClientRequest::Invalid(seq!["Usage: brightness <0-100>"@])
            } else {
                match parse_unsigned(w[1], 255) {
                    Some(b) => if b <= 100 {
                        ClientRequest::Brightness(b as u8)
                    } else {
                        ClientRequest::Invalid(seq!["Brightness must be 0-100"@])
                    },
                    None => ClientRequest::Invalid(seq!["Brightness must be 0-100"@]),
                }
            }
        } else if c == "button"@ {
            if w.len() < 3 {
                ClientRequest::Invalid(seq!["Usage: button <0-31> <image_path>"@])
            } else {
                match parse_unsigned(w[1], 255) {
                    Some(i) => if i < 32 {
                        ClientRequest::Button(i as u8, w[2])
                    } else {
                        ClientRequest::Invalid(seq!["Button index must be 0-31"@])
                    },
                    None => ClientRequest::Invalid(seq!["Button index must be 0-31"@]),
                }
            }
        } else if c == "encoder"@ {
            if w.len() < 5 {
                ClientRequest::Invalid(seq!["Usage: encoder <0-1> <r> <g> <b>"@])
            } else {
                match (
                    parse_unsigned(w[1], 255),
                    parse_unsigned(w[2], 255),
                    parse_unsigned(w[3], 255),
                    parse_unsigned(w[4], 255),
                ) {
                    (Some(e), Some(r), Some(g), Some(b)) => if e < 2 {
                        ClientRequest::Encoder(e as u8, r as u8, g as u8, b as u8)
                    } else {
                        ClientRequest::Invalid(seq!["Usage: encoder <0-1> <r> <g> <b> (all 0-255)"@])
                    },
                    _ => ClientRequest::Invalid(seq!["Usage: encoder <0-1> <r> <g> <b> (all 0-255)"@]),
                }
            }
        } else if c == "ring"@ {
            ring_request(w)
        } else if c == "reset"@ {
            ClientRequest::Reset
        } else if c == "events"@ {
            ClientRequest::Events
        } else {
            ClientRequest::Invalid(
                seq!["Unknown command: "@ + c + ". Type 'help' for available commands."@],
            )
        }
    }
}

/// The color a word `r,g,b` names.
pub fn color_from_word(s: &str) -> (r: Option<(u8, u8, u8)>)
    ensures
        r == color_of(s@),
{
    let f = split_commas(s);
    if f.len() != 3 {
        return None;
    }
    proof {
        assert(string_views(f@)[0] == f@[0]@);
        assert(string_views(f@)[1] == f@[1]@);
        assert(string_views(f@)[2] == f@[2]@);
    }
    match (parse_u8(f[0].as_str()), parse_u8(f[1].as_str()), parse_u8(f[2].as_str())) {
        (Some(r), Some(g), Some(b)) => Some((r, g, b)),
        _ => None,
    }
}

/// A list of lines holding one text.
fn one_line(text: &str) -> (v: Vec<String>)
    ensures
        string_views(v@) == seq![text@],
{
    let mut v: Vec<String> = Vec::new();
    v.push(string_of(text));
    assert(string_views(v@) =~= seq![text@]);
    v
}

/// What a `ring` line asks for.
fn parse_ring(parts: &Vec<String>) -> (r: ClientCommand)
    requires
        parts@.len() >= 1,
    ensures
        r@ == ring_request(string_views(parts@)),
{
    let ghost w = string_views(parts@);
    if parts.len() < 3 {
        let mut v = one_line("Usage: ring <0-1> <colors...>");
        let ghost first = string_views(v@);
        v.push(string_of("  Colors format: r,g,b r,g,b ... (up to 24 colors)"));
        assert(string_views(v@) =~= first.push("  Colors format: r,g,b r,g,b ... (up to 24 colors)"@));
        assert(string_views(v@) =~= ring_usage());
        return ClientCommand::Invalid(v);
    }
    proof {
        lemma_parse_unsigned_range(w[1], 255);
    }
    let encoder = match parse_u8(parts[1].as_str()) {
        Some(e) => e,
        None => return ClientCommand::Invalid(one_line("Encoder index must be 0 or 1")),
    };
    if encoder >= 2 {
        return ClientCommand::Invalid(one_line("Encoder index must be 0 or 1"));
    }
    let ghost ws = w.skip(2);
    let mut colors: Vec<(u8, u8, u8)> = Vec::new();
    let mut notes: Vec<String> = Vec::new();
    let mut k: usize = 2;
    while k < parts.len()
        invariant
            2 <= k <= parts@.len(),
            w == string_views(parts@),
            ws == w.skip(2),
            w.len() >= 3,
            parse_unsigned(w[1], 255) == Some(encoder as int),
            encoder < 2,
            colors@.len() < MAX_RING_COLORS,
            (colors@, string_views(notes@)) == ring_scan(ws, k - 2),
        decreases parts@.len() - k,
    {
        assert(ws[k - 2] == parts@[k as int]@);
        match color_from_word(parts[k].as_str()) {
            Some(c) => {
                colors.push(c);
            },
            None => {
                let ghost before = string_views(notes@);
                let note = concat(string_of("Invalid color format: "), parts[k].as_str());
                notes.push(note);
                assert(string_views(notes@) =~= before.push("Invalid color format: "@ + ws[k - 2]));
            },
        }
        k = k + 1;
        assert((colors@, string_views(notes@)) == ring_scan(ws, k - 2));
        if colors.len() >= MAX_RING_COLORS {
            proof {
                lemma_ring_scan_full(ws, k - 2, ws.len() as int);
            }
            return ClientCommand::Ring(encoder, colors, notes);
        }
    }
    assert(ws.len() == k - 2);
    if colors.len() > 0 {
        ClientCommand::Ring(encoder, colors, notes)
    } else {
        let ghost before = string_views(notes@);
        notes.push(string_of("No valid colors provided"));
        assert(string_views(notes@) =~= before.push("No valid colors provided"@));
        ClientCommand::Invalid(notes)
    }
}

/// Once 24 colors are read, later words change nothing.
proof fn lemma_ring_scan_full(ws: Seq<Seq<char>>, k: int, j: int)
    requires
        0 <= k <= j,
        ring_scan(ws, k).0.len() >= 24,
    ensures
        ring_scan(ws, j) == ring_scan(ws, k),
    decreases j - k,
{
    if j > k {
        lemma_ring_scan_full(ws, k, j - 1);
    }
}

/// What a line typed at the client console asks for.
pub fn parse_client_command(line: &str) -> (r: ClientCommand)
    ensures
        r@ == client_request(words(line@)),
{
    let parts = split_whitespace(line);
    let ghost w = string_views(parts@);
    if parts.len() == 0 {
        return ClientCommand::Empty;
    }
    let c = &parts[0];
    if string_is(c, "quit") || string_is(c, "exit") || string_is(c, "q") {
        ClientCommand::Quit
    } else if string_is(c, "help") || string_is(c, "h") {
        ClientCommand::Help
    } else if string_is(c, "brightness") {
        if parts.len() < 2 {
            return ClientCommand::Invalid(one_line("Usage: brightness <0-100>"));
        }
        proof {
            lemma_parse_unsigned_range(w[1], 255);
        }
        match parse_u8(parts[1].as_str()) {
            Some(b) => if b <= 100 {
                ClientCommand::Brightness(b)
            } else {
                ClientCommand::Invalid(one_line("Brightness must be 0-100"))
            },
            None => ClientCommand::Invalid(one_line("Brightness must be 0-100")),
        }
    } else if string_is(c, "button") {
        if parts.len() < 3 {
            return ClientCommand::Invalid(one_line("Usage: button <0-31> <image_path>"));
        }
        proof {
            lemma_parse_unsigned_range(w[1], 255);
        }
        match parse_u8(parts[1].as_str()) {
            Some(i) => if i < 32 {
                ClientCommand::Button(i, parts[2].clone())
            } else {
                ClientCommand::Invalid(one_line("Button index must be 0-31"))
            },
            None => ClientCommand::Invalid(one_line("Button index must be 0-31")),
        }
    } else if string_is(c, "encoder") {
        if parts.len() < 5 {
            return ClientCommand::Invalid(one_line("Usage: encoder <0-1> <r> <g> <b>"));
        }
        proof {
            lemma_parse_unsigned_range(w[1], 255);
        }
        match (
            parse_u8(parts[1].as_str()),
            parse_u8(parts[2].as_str()),
            parse_u8(parts[3].as_str()),
            parse_u8(parts[4].as_str()),
        ) {
            (Some(e), Some(r), Some(g), Some(b)) => if e < 2 {
                ClientCommand::Encoder(e, r, g, b)
            } else {
                ClientCommand::Invalid(one_line("Usage: encoder <0-1> <r> <g> <b> (all 0-255)"))
            },
            _ => ClientCommand::Invalid(one_line("Usage: encoder <0-1> <r> <g> <b> (all 0-255)")),
        }
    } else if string_is(c, "ring") {
        parse_ring(&parts)
    } else if string_is(c, "reset") {
        ClientCommand::Reset
    } else if string_is(c, "events") {
        ClientCommand::Events
    } else {
        let e = concat(string_of("Unknown command: "), c.as_str());
        ClientCommand::Invalid(one_line(concat(e, ". Type 'help' for available commands.").as_str()))
    }
}

} // verus!
