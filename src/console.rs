//! The editing rules of the console's input line: what a key press does to
//! the line and its cursor, and what is printed when a line is submitted.
//!
//! The host delivers key events one at a time and carries out the outcome:
//! it plays a click for every press, shows a submitted line with its output,
//! and stops reading further events on `Stop`.
use vstd::prelude::*;
use crate::command::Command;
use crate::command::command_of;
use crate::command::run_output;
use crate::command::string_views;
use crate::text::chars_of;
use crate::text::deep_chars;
use crate::text::fields;
use crate::text::split_fields;
use crate::text::string_of;

verus! {

/// The prompt shown before the input line.
pub const TERMINAL_CURSOR: &'static str = "> ";

/// The line being typed and the cursor's position in it, in characters.
pub struct TerminalCursor {
    pub current_input: Vec<char>,
    pub cursor_location: usize,
}

/// The keys that the console tells apart.
#[derive(Clone, Copy, Debug, PartialEq, Eq, Structural)]
pub enum TerminalKey {
    Enter,
    Backspace,
    Delete,
    Other,
}

/// What the host does after a key event.
pub enum KeyOutcome {
    /// A key release: nothing happens, not even a click.
    Released,
    /// A line was submitted: the raw line and the lines it printed.
    Submitted(String, Vec<String>),
    /// Go on with the next event.
    Continue,
    /// A press that carries no text: ignore the events after it.
    Stop,
}

/// The kind of outcome, for contracts.
pub enum OutcomeKind {
    Released,
    Submitted,
    Continue,
    Stop,
}

/// What a key event leaves behind: the line, the cursor and the outcome.
pub struct EditModel {
    pub input: Seq<char>,
    pub cursor: int,
    pub outcome: OutcomeKind,
}

/// `input` with `text` put in at position `at`.
pub open spec fn insert_text(input: Seq<char>, at: int, text: Seq<char>) -> Seq<char> {
    input.take(at) + text + input.skip(at)
}

/// The effect of typing `text` at `cursor`: with no text the event stream
/// stops; text goes in at the cursor, which moves one place on.
pub open spec fn type_text(input: Seq<char>, cursor: int, text: Option<Seq<char>>) -> EditModel {
    match text {
        None => EditModel { input, cursor, outcome: OutcomeKind::Stop },
        Some(t) => EditModel {
            input: insert_text(input, cursor, t),
            cursor: if t.len() > 0 {
                cursor + 1
            } else {
                cursor
            },
            outcome: OutcomeKind::Continue,
        },
    }
}

/// The effect of one key event on the line `input` with its cursor at `cursor`.
///
/// Backspace drops the character behind the cursor and moves the cursor one
/// place back; at the start of the line it does nothing.
/// Delete does nothing at the end of the line, and elsewhere acts as a
/// printable key.
pub open spec fn key_effect(
    input: Seq<char>,
    cursor: int,
    pressed: bool,
    key: TerminalKey,
    text: Option<Seq<char>>,
) -> EditModel {
    let unchanged = EditModel { input, cursor, outcome: OutcomeKind::Continue };
    if !pressed {
        EditModel { input, cursor, outcome: OutcomeKind::Released }
    } else {
        match key {
            TerminalKey::Enter => EditModel {
                input: Seq::empty(),
                cursor: 0,
                outcome: OutcomeKind::Submitted,
            },
            TerminalKey::Backspace => if cursor == 0 || input.len() == 0 {
                unchanged
            } else {
                EditModel {
                    input: input.remove(cursor - 1),
                    cursor: cursor - 1,
                    outcome: OutcomeKind::Continue,
                }
            },
            TerminalKey::Delete => if input.len() == 0 || cursor == input.len() {
                unchanged
            } else {
                type_text(input, cursor, text)
            },
            TerminalKey::Other => type_text(input, cursor, text),
        }
    }
}

/// The command that a submitted line runs, and its arguments: its words
/// after the first, or all of them for an invalid or empty line.
pub open spec fn submitted_command(input: Seq<char>) -> (Command, Seq<Seq<char>>) {
    let words = fields(input);
    let c = if words.len() == 0 {
        Command::Noop
    } else {
        command_of(words[0])
    };
    if c is Invalid || c is Noop {
        (c, words)
    } else {
        (c, words.drop_first())
    }
}

/// The lines printed when `input` is submitted.
pub open spec fn submitted_output(input: Seq<char>) -> Seq<Seq<char>> {
    run_output(submitted_command(input).0, submitted_command(input).1)
}

/// Lines joined with line feeds between them.
pub open spec fn join_lines(lines: Seq<Seq<char>>) -> Seq<char>
    decreases lines.len(),
{
    if lines.len() == 0 {
        Seq::empty()
    } else if lines.len() == 1 {
        lines[0]
    } else {
        join_lines(lines.drop_last()) + "\n"@ + lines.last()
    }
}

impl TerminalCursor {
    /// The cursor stands within the line or just after it.
    pub open spec fn wf(&self) -> bool {
        self.cursor_location <= self.current_input@.len()
    }

    /// An empty line with the cursor at its start.
    pub fn new() -> (r: TerminalCursor)
        ensures
            r.wf(),
            r.current_input@ == Seq::<char>::empty(),
            r.cursor_location == 0,
    {
        TerminalCursor { current_input: Vec::new(), cursor_location: 0 }
    }

    /// The prompt followed by the line being typed.
    pub fn display_text(&self) -> (r: String)
        ensures
            r@ == TERMINAL_CURSOR@ + self.current_input@,
    {
        String::from_str(TERMINAL_CURSOR).concat(string_of(&self.current_input).as_str())
    }

    /// Applies one key event: `pressed` is false for a release, and `text`
    /// is the text that the key produces, if any.
    pub fn handle_key(&mut self, pressed: bool, key: TerminalKey, text: Option<&str>) -> (r:
        KeyOutcome)
        requires
            old(self).wf(),
        ensures
            final(self).wf(),
            ({
                let e = key_effect(
                    old(self).current_input@,
                    old(self).cursor_location as int,
                    pressed,
                    key,
                    match text {
                        Some(t) => Some(t@),
                        None => None,
                    },
                );
                &&& final(self).current_input@ == e.input
                &&& final(self).cursor_location == e.cursor
                &&& match e.outcome {
                    OutcomeKind::Released => r is Released,
                    OutcomeKind::Continue => r is Continue,
                    OutcomeKind::Stop => r is Stop,
                    OutcomeKind::Submitted => r matches KeyOutcome::Submitted(raw, out) && raw@
                        == old(self).current_input@ && string_views(out@) == submitted_output(
                        old(self).current_input@,
                    ),
                }
            }),
    {
        if !pressed {
            return KeyOutcome::Released;
        }
        let cursor = self.cursor_location;
        let len = self.current_input.len();
        match key {
            TerminalKey::Enter => {
                let raw = string_of(&self.current_input);
                let output = submit(&self.current_input);
                self.current_input = Vec::new();
                self.cursor_location = 0;
                KeyOutcome::Submitted(raw, output)
            },
            TerminalKey::Backspace => {
                if cursor == 0 || len == 0 {
                } else {
                    self.current_input.remove(cursor - 1);
                    self.cursor_location = cursor - 1;
                }
                KeyOutcome::Continue
            },
            TerminalKey::Delete => {
                if len == 0 || cursor == len {
                    KeyOutcome::Continue
                } else {
                    self.type_text(text)
                }
            },
            TerminalKey::Other => self.type_text(text),
        }
    }

    /// Puts `text` in at the cursor; with no text, asks to stop.
    fn type_text(&mut self, text: Option<&str>) -> (r: KeyOutcome)
        requires
            old(self).wf(),
        ensures
            final(self).wf(),
            ({
                let e = type_text(
                    old(self).current_input@,
                    old(self).cursor_location as int,
                    match text {
                        Some(t) => Some(t@),
                        None => None,
                    },
                );
                &&& final(self).current_input@ == e.input
                &&& final(self).cursor_location == e.cursor
                &&& (e.outcome is Stop ==> r is Stop)
                &&& (e.outcome is Continue ==> r is Continue)
            }),
    {
        match text {
            None => KeyOutcome::Stop,
            Some(t) => {
                let ins = chars_of(t);
                let at = self.cursor_location;
                let old_len = self.current_input.len();
                let mut line: Vec<char> = Vec::new();
                let mut k: usize = 0;
                while k < at
                    invariant
                        at <= old_len == self.current_input.len(),
                        k <= at,
                        line@ == self.current_input@.take(k as int),
                    decreases at - k,
                {
                    line.push(self.current_input[k]);
                    assert(line@ =~= self.current_input@.take(k + 1));
                    k = k + 1;
                }
                let mut m: usize = 0;
                while m < ins.len()
                    invariant
                        line@ == self.current_input@.take(at as int) + ins@.take(m as int),
                        m <= ins.len(),
                    decreases ins.len() - m,
                {
                    line.push(ins[m]);
                    assert(line@ =~= self.current_input@.take(at as int) + ins@.take(m + 1));
                    m = m + 1;
                }
                let mut k: usize = at;
                while k < old_len
                    invariant
                        at <= old_len == self.current_input.len(),
                        at <= k <= old_len,
                        line@ == self.current_input@.take(at as int) + ins@ + self.current_input@.subrange(
                            at as int,
                            k as int,
                        ),
                    decreases old_len - k,
                {
                    line.push(self.current_input[k]);
                    assert(line@ =~= self.current_input@.take(at as int) + ins@
                        + self.current_input@.subrange(at as int, k + 1));
                    k = k + 1;
                }
                assert(ins@.take(ins@.len() as int) =~= ins@);
                assert(self.current_input@.subrange(at as int, old_len as int) =~= self.current_input@.skip(
                    at as int,
                ));
                let total = line.len();
                assert(total == old_len + ins@.len());
                if ins.len() > 0 {
                    self.cursor_location = at + 1;
                }
                self.current_input = line;
                KeyOutcome::Continue
            },
        }
    }
}

/// Runs the command that the submitted line `input` names and returns the
/// lines it prints.
pub fn submit(input: &Vec<char>) -> (r: Vec<String>)
    ensures
        string_views(r@) == submitted_output(input@),
{
    let words = split_fields(input);
    let ghost ws = deep_chars(words@);
    assert(ws.len() == words@.len());
    let mut args: Vec<String> = Vec::new();
    let mut k: usize = 0;
    while k < words.len()
        invariant
            ws == deep_chars(words@),
            ws.len() == words@.len(),
            k <= words.len(),
            string_views(args@) == ws.take(k as int),
        decreases words.len() - k,
    {
        assert(ws[k as int] == words@[k as int]@);
        let ghost before = args@;
        args.push(string_of(&words[k]));
        assert(string_views(before).len() == before.len());
        assert(string_views(args@) =~= ws.take(k + 1));
        k = k + 1;
    }
    assert(ws.take(k as int) =~= ws);
    let command = if args.len() == 0 {
        Command::Noop
    } else {
        Command::parse(args[0].as_str())
    };
    match command {
        Command::Invalid | Command::Noop => command.run(args.as_slice()),
        _ => {
            let rest = vstd::slice::slice_subrange(args.as_slice(), 1, args.len());
            assert(string_views(rest@) =~= ws.drop_first());
            command.run(rest)
        },
    }
}

/// The text that records a submitted line: the prompt and the line, then
/// the printed lines, one per line.
pub fn history_text(input: &str, output: &[String]) -> (r: String)
    ensures
        r@ == TERMINAL_CURSOR@ + input@ + "\n"@ + join_lines(string_views(output@)),
{
    let ghost outs = string_views(output@);
    let mut r = String::from_str(TERMINAL_CURSOR).concat(input).concat("\n");
    let ghost head = r@;
    let mut k: usize = 0;
    assert(outs.take(0) =~= Seq::<Seq<char>>::empty());
    while k < output.len()
        invariant
            outs == string_views(output@),
            k <= output@.len(),
            r@ == head + join_lines(outs.take(k as int)),
        decreases output.len() - k,
    {
        assert(outs.take(k + 1).drop_last() =~= outs.take(k as int));
        if k > 0 {
            r.append("\n");
        }
        r.append(output[k].as_str());
        assert(r@ =~= head + join_lines(outs.take(k + 1)));
        k = k + 1;
    }
    assert(outs.take(k as int) =~= outs);
    r
}

/// Relies on rand's `thread_rng` and `Rng::gen_range`: a number drawn from
/// `0..n`, which panics on an empty range.
#[verifier::external_body]
fn random_below(n: usize) -> (r: usize)
    requires
        n > 0,
    ensures
        r < n,
{
    rand::Rng::gen_range(&mut rand::thread_rng(), 0..n)
}

/// Picks which of `n_clicks` key click sounds to play, at random; none when
/// there are none.
pub fn pick_click(n_clicks: usize) -> (r: Option<usize>)
    ensures
        r is None <==> n_clicks == 0,
        r matches Some(i) ==> i < n_clicks,
{
    if n_clicks == 0 {
        None
    } else {
        Some(random_below(n_clicks))
    }
}

} // verus!
