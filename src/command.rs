//! Commands of the in-game text console, and what each one prints.
use vstd::prelude::*;
use crate::text::chars_of;
use crate::text::chars_equal;
use crate::text::trim;
use crate::text::trim_chars;

verus! {

/// A command typed at the console.
#[derive(Clone, Copy, Debug, PartialEq, Eq, Structural)]
pub enum Command {
    List,
    Help,
    /// A word that names no command.
    Invalid,
    /// An empty input line.
    Noop,
}

/// The command that `input` names, by its trimmed text.
pub open spec fn command_of(input: Seq<char>) -> Command {
    let t = trim(input);
    if t.len() == 0 {
        Command::Noop
    } else if t == "?"@ {
        Command::Help
    } else if t == "ls"@ {
        Command::List
    } else {
        Command::Invalid
    }
}

/// The word that names a listed command.
pub open spec fn command_name(c: Command) -> Seq<char> {
    match c {
        Command::Help => "?"@,
        _ => "ls"@,
    }
}

/// The names of the listed commands, separated by spaces.
pub open spec fn command_summary() -> Seq<char> {
    command_name(Command::Help) + " "@ + command_name(Command::List)
}

/// What help says of the command that a word names.
pub open spec fn help_topic(c: Command) -> Seq<char> {
    match c {
        Command::Help => "Uh... You serious?"@,
        Command::List => "List stuff. Like \"virus\" for viruses."@,
        _ => "Man... I don't even know! What nonsense are you asking me?"@,
    }
}

pub open spec fn string_views(s: Seq<String>) -> Seq<Seq<char>> {
    s.map_values(|x: String| x@)
}

/// The lines that command `c` prints when run with `args`.
pub open spec fn run_output(c: Command, args: Seq<Seq<char>>) -> Seq<Seq<char>> {
    match c {
        Command::Help => if args.len() == 0 {
            seq!["Lol, can't remember your own commands?"@, command_summary()]
        } else {
            seq![args[0] + ": "@ + help_topic(command_of(args[0]))]
        },
        Command::Invalid => seq![
            "Invalid command, dummy (type ? if you already forgot your own scripts): "@ + args[0],
        ],
        Command::List => seq!["TODO"@],
        Command::Noop => seq![Seq::empty()],
    }
}

impl Command {
    /// The command that the trimmed `input` names.
    pub fn parse(input: &str) -> (r: Command)
        ensures
            r == command_of(input@),
    {
        let t = trim_chars(&chars_of(input));
        if t.len() == 0 {
            Command::Noop
        } else if chars_equal(&t, "?") {
            Command::Help
        } else if chars_equal(&t, "ls") {
            Command::List
        } else {
            Command::Invalid
        }
    }

    /// Runs the command with `args` and returns the lines it prints. An
    /// invalid command quotes its first argument, which is the word typed.
    pub fn run(&self, args: &[String]) -> (r: Vec<String>)
        requires
            *self is Invalid ==> args@.len() > 0,
        ensures
            string_views(r@) == run_output(*self, string_views(args@)),
    {
        let mut output: Vec<String> = Vec::new();
        match self {
            Command::Help => {
                if args.len() == 0 {
                    output.push(String::from_str("Lol, can't remember your own commands?"));
                    output.push(
                        String::from_str(Command::Help.name()).concat(" ").concat(
                            Command::List.name(),
                        ),
                    );
                } else {
                    let topic = match Command::parse(args[0].as_str()) {
                        Command::Help => "Uh... You serious?",
                        Command::List => "List stuff. Like \"virus\" for viruses.",
                        _ => "Man... I don't even know! What nonsense are you asking me?",
                    };
                    output.push(args[0].clone().concat(": ").concat(topic));
                }
            },
            Command::Invalid => output.push(
                String::from_str(
                    "Invalid command, dummy (type ? if you already forgot your own scripts): ",
                ).concat(args[0].as_str()),
            ),
            Command::List => output.push(String::from_str("TODO")),
            Command::Noop => output.push(String::new()),
        }
        assert(string_views(output@) =~= run_output(*self, string_views(args@)));
        output
    }

    /// The word that names this command in the list that help prints. Only
    /// `Help` and `List` are listed.
    pub fn name(&self) -> (r: &'static str)
        requires
            *self is Help || *self is List,
        ensures
            r@ == command_name(*self),
    {
        match self {
            Command::List => "ls",
            _ => "?",
        }
    }
}

} // verus!
