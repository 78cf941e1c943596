//! The debugger's command language and the control plane that turns commands
//! into requests for the emulator's driver.

use crate::engine::{Engine, RunRequest, Session};
use crate::script::{
    has_prefix, line_views, lines_of, parse_address, read_address, same_bytes,
    second_word, split_lines, starts_with, trim, trimmed, word_after_first,
};
use vstd::prelude::*;
use vstd::string::StringSliceAdditionalSpecFns;

verus! {

/// One command of the debugger.
#[derive(Debug, Clone, Copy, PartialEq, Eq)]
pub enum Command {
    /// `quit`, `q` or `exit`: leave the debugger.
    Quit,
    /// `print` or `p`: show the registers.
    Print,
    /// `run` or `r`: start the program at its entry.
    Run,
    /// `next` or `n`: execute one instruction.
    Next,
    /// `continue` or `c`: resume execution.
    Continue,
    /// `logon`: trace execution.
    Logon,
    /// `logoff`: stop tracing.
    Logoff,
    /// `break <addr>` or `b <addr>`: trap execution at the address.
    Break(u64),
}

/// What one line of a script is.
#[derive(Debug, Clone, Copy, PartialEq, Eq)]
pub enum ParseVal {
    /// A blank line, or one that begins with `#`.
    Comment,
    /// A command.
    Command(Command),
}

/// Why a script was rejected.
#[derive(Debug, Clone, Copy, PartialEq, Eq)]
pub enum DebugError {
    /// The line with this number, counted from one, is no command.
    UnknownDebugCommand { line: usize },
}

/// What the line `line` is, or `None` if it is neither a comment nor a command.
///
/// White space around the line is ignored, and white space is every
/// character that Unicode calls so. A `break` line is a command only if a
/// blank follows the keyword and the second word of the line denotes an
/// address; words after the address are ignored.
pub open spec fn parse_line(line: Seq<u8>) -> Option<ParseVal> {
    let text = trimmed(line);
    if text.len() == 0 || text[0] == 0x23 {
        Some(ParseVal::Comment)
    } else if text == "q".spec_bytes() || text == "quit".spec_bytes() || text
        == "exit".spec_bytes() {
        Some(ParseVal::Command(Command::Quit))
    } else if text == "p".spec_bytes() || text == "print".spec_bytes() {
        Some(ParseVal::Command(Command::Print))
    } else if text == "r".spec_bytes() || text == "run".spec_bytes() {
        Some(ParseVal::Command(Command::Run))
    } else if text == "n".spec_bytes() || text == "next".spec_bytes() {
        Some(ParseVal::Command(Command::Next))
    } else if text == "c".spec_bytes() || text == "continue".spec_bytes() {
        Some(ParseVal::Command(Command::Continue))
    } else if text == "logon".spec_bytes() {
        Some(ParseVal::Command(Command::Logon))
    } else if text == "logoff".spec_bytes() {
        Some(ParseVal::Command(Command::Logoff))
    } else if has_prefix(text, "b ".spec_bytes()) || has_prefix(text, "break ".spec_bytes()) {
        match parse_address(second_word(text)) {
            Some(address) => Some(ParseVal::Command(Command::Break(address))),
            None => None,
        }
    } else {
        None
    }
}

/// The first index at or after `from` of a line that is neither a comment nor
/// a command, or the number of lines if there is none.
pub open spec fn first_unknown(lines: Seq<Seq<u8>>, from: int) -> int
    decreases lines.len() - from,
{
    if 0 <= from < lines.len() && parse_line(lines[from]) is Some {
        first_unknown(lines, from + 1)
    } else {
        from
    }
}

/// The commands among `lines`, in order; comments and unknown lines give none.
pub open spec fn commands_of(lines: Seq<Seq<u8>>) -> Seq<Command>
    decreases lines.len(),
{
    if lines.len() == 0 {
        Seq::empty()
    } else {
        match parse_line(lines.last()) {
            Some(ParseVal::Command(command)) => commands_of(lines.drop_last()).push(command),
            _ => commands_of(lines.drop_last()),
        }
    }
}

/// What a script parses to: its commands in order, or the number of its first
/// line that is no command.
pub open spec fn parse_script(text: Seq<u8>) -> Result<Seq<Command>, DebugError> {
    let lines = lines_of(text);
    let unknown = first_unknown(lines, 0);
    if unknown < lines.len() {
        Err(DebugError::UnknownDebugCommand { line: (unknown + 1) as usize })
    } else {
        Ok(commands_of(lines))
    }
}

/// Classifies one line of a script.
pub fn read_line(line: &[u8]) -> (value: Option<ParseVal>)
    ensures
        value == parse_line(line@),
{
    let text = trim(line);
    if text.len() == 0 || text[0] == 0x23 {
        Some(ParseVal::Comment)
    } else if same_bytes(text, "q".as_bytes()) || same_bytes(text, "quit".as_bytes())
        || same_bytes(text, "exit".as_bytes()) {
        Some(ParseVal::Command(Command::Quit))
    } else if same_bytes(text, "p".as_bytes()) || same_bytes(text, "print".as_bytes()) {
        Some(ParseVal::Command(Command::Print))
    } else if same_bytes(text, "r".as_bytes()) || same_bytes(text, "run".as_bytes()) {
        Some(ParseVal::Command(Command::Run))
    } else if same_bytes(text, "n".as_bytes()) || same_bytes(text, "next".as_bytes()) {
        Some(ParseVal::Command(Command::Next))
    } else if same_bytes(text, "c".as_bytes()) || same_bytes(text, "continue".as_bytes()) {
        Some(ParseVal::Command(Command::Continue))
    } else if same_bytes(text, "logon".as_bytes()) {
        Some(ParseVal::Command(Command::Logon))
    } else if same_bytes(text, "logoff".as_bytes()) {
        Some(ParseVal::Command(Command::Logoff))
    } else if starts_with(text, "b ".as_bytes()) || starts_with(text, "break ".as_bytes()) {
        match read_address(word_after_first(text)) {
            Some(address) => Some(ParseVal::Command(Command::Break(address))),
            None => None,
        }
    } else {
        None
    }
}

/// A parsed script: its commands in the order of their lines.
pub struct Ast {
    pub commands: Vec<Command>,
}

impl Ast {
    /// Parses a whole script.
    ///
    /// Every line is read before any result is given: a script with a line
    /// that is no command yields no commands at all, only the number of the
    /// first such line.
    pub fn new(file: &str) -> (result: Result<Ast, DebugError>)
        ensures
            match result {
                Ok(ast) => parse_script(file.spec_bytes()) == Ok::<Seq<Command>, DebugError>(
                    ast.commands@,
                ),
                Err(error) => parse_script(file.spec_bytes()) == Err::<Seq<Command>, DebugError>(
                    error,
                ),
            },
    {
        let lines = split_lines(file.as_bytes());
        let ghost texts = line_views(lines@);
        let mut commands: Vec<Command> = Vec::new();
        let mut idx: usize = 0;
        assert(texts.take(0) =~= Seq::<Seq<u8>>::empty());
        loop
            invariant
                texts == line_views(lines@),
                texts == lines_of(file.spec_bytes()),
                idx <= lines@.len(),
                first_unknown(texts, 0) == first_unknown(texts, idx as int),
                commands@ == commands_of(texts.take(idx as int)),
            decreases lines@.len() - idx,
        {
            match Ast::parse_command(idx, lines.as_slice()) {
                Err(error) => {
                    return Err(error);
                },
                Ok(None) => {
                    assert(texts.take(idx as int) =~= texts);
                    return Ok(Ast { commands });
                },
                Ok(Some((value, next_idx))) => {
                    proof {
                        let next = texts.take(idx as int + 1);
                        assert(next.drop_last() =~= texts.take(idx as int));
                        assert(next.last() == texts[idx as int]);
                    }
                    if let ParseVal::Command(command) = value {
                        commands.push(command);
                    }
                    idx = next_idx;
                },
            }
        }
    }

    /// Reads the line at index `idx` of `lines`.
    ///
    /// Past the last line there is nothing to read. Otherwise the result is
    /// what the line is, with the index of the line to read next; a line that
    /// is no command is an error that carries `idx + 1`, its number.
    pub fn parse_command(idx: usize, lines: &[&[u8]]) -> (result: Result<
        Option<(ParseVal, usize)>,
        DebugError,
    >)
        ensures
            idx >= lines@.len() ==> result == Ok::<Option<(ParseVal, usize)>, DebugError>(None),
            idx < lines@.len() ==> result == match parse_line(lines@[idx as int]@) {
                Some(value) => Ok::<Option<(ParseVal, usize)>, DebugError>(
                    Some((value, (idx + 1) as usize)),
                ),
                None => Err::<Option<(ParseVal, usize)>, DebugError>(
                    DebugError::UnknownDebugCommand { line: (idx + 1) as usize },
                ),
            },
    {
        if idx >= lines.len() {
            return Ok(None);
        }
        match read_line(lines[idx]) {
            Some(value) => Ok(Some((value, idx + 1))),
            None => Err(DebugError::UnknownDebugCommand { line: idx + 1 }),
        }
    }
}

/// What the driver does after the debugger has taken a command.
#[derive(Debug, Clone, Copy, PartialEq, Eq)]
pub enum Action {
    /// End the host process with a success status.
    Quit,
    /// Read the registers and show them.
    Print,
    /// Execute from `begin` until the program counter is `until`, a hook
    /// stops the emulator, or `count` instructions are done; a `count` of zero
    /// sets no limit. Report the program counter to `Engine::finish_run`
    /// when the emulator returns.
    Emulate { begin: u64, until: u64, count: u64 },
    /// Read the byte at `address`, hand it to `Engine::add_break` and apply
    /// the patch that comes back.
    Probe { address: u64 },
    /// Nothing.
    Done,
}

/// The action that serves a request to execute: after the exit, the host
/// process ends instead.
pub open spec fn action_for(request: RunRequest) -> Action {
    match request {
        RunRequest::Emulate { begin, until, count } => Action::Emulate { begin, until, count },
        RunRequest::Exited => Action::Quit,
    }
}

/// The session after `command`, and what the driver does for it.
pub open spec fn react(session: Session, command: Command) -> (Session, Action) {
    match command {
        Command::Quit => (session, Action::Quit),
        Command::Print => (session, Action::Print),
        Command::Run => (session.start().0, action_for(session.start().1)),
        Command::Next => (session.step().0, action_for(session.step().1)),
        Command::Continue => (session.cont().0, action_for(session.cont().1)),
        Command::Logon => (session.set_verbose(true), Action::Done),
        Command::Logoff => (session.set_verbose(false), Action::Done),
        Command::Break(address) => (
            session,
            if session.traps.contains_key(address) {
                Action::Done
            } else {
                Action::Probe { address }
            },
        ),
    }
}

/// Once the program has exited, a command to run, to step or to continue
/// ends the host process and leaves the session untouched: the emulator is
/// not entered again.
pub proof fn lemma_no_run_after_exit(session: Session)
    requires
        session.exited(),
    ensures
        react(session, Command::Run) == (session, Action::Quit),
        react(session, Command::Next) == (session, Action::Quit),
        react(session, Command::Continue) == (session, Action::Quit),
{
}

/// No command leaves the exited state.
pub proof fn lemma_commands_keep_exit(session: Session, command: Command)
    requires
        session.exited(),
    ensures
        react(session, command).0.exited(),
{
}

fn to_action(request: RunRequest) -> (action: Action)
    ensures
        action == action_for(request),
{
    match request {
        RunRequest::Emulate { begin, until, count } => Action::Emulate { begin, until, count },
        RunRequest::Exited => Action::Quit,
    }
}

/// The control plane: it owns the engine and takes one command at a time.
pub struct Debugger {
    pub engine: Engine,
}

impl Debugger {
    /// A debugger for the session of `engine`.
    pub fn new(engine: Engine) -> (debugger: Debugger)
        ensures
            debugger.engine == engine,
    {
        Debugger { engine }
    }

    /// Takes `run`: starts the program at its entry.
    pub fn run(&mut self) -> (action: Action)
        ensures
            final(self).engine@ == react(old(self).engine@, Command::Run).0,
            action == react(old(self).engine@, Command::Run).1,
            final(self).engine.loaded() == old(self).engine.loaded(),
    {
        to_action(self.engine.start())
    }

    /// Takes `continue`: resumes the program.
    pub fn cont(&mut self) -> (action: Action)
        ensures
            final(self).engine@ == react(old(self).engine@, Command::Continue).0,
            action == react(old(self).engine@, Command::Continue).1,
            final(self).engine.loaded() == old(self).engine.loaded(),
    {
        to_action(self.engine.cont())
    }

    /// Takes `next`: executes one instruction.
    pub fn next(&mut self) -> (action: Action)
        ensures
            final(self).engine@ == react(old(self).engine@, Command::Next).0,
            action == react(old(self).engine@, Command::Next).1,
            final(self).engine.loaded() == old(self).engine.loaded(),
    {
        to_action(self.engine.step())
    }

    /// Takes `break`: asks for the byte at `address`, unless a trap stands
    /// there already.
    pub fn add_break(&mut self, address: u64) -> (action: Action)
        ensures
            final(self).engine@ == react(old(self).engine@, Command::Break(address)).0,
            action == react(old(self).engine@, Command::Break(address)).1,
            final(self).engine.loaded() == old(self).engine.loaded(),
    {
        if self.engine.has_break(address) {
            Action::Done
        } else {
            Action::Probe { address }
        }
    }

    /// Takes one command.
    pub fn execute(&mut self, command: Command) -> (action: Action)
        ensures
            final(self).engine@ == react(old(self).engine@, command).0,
            action == react(old(self).engine@, command).1,
            final(self).engine.loaded() == old(self).engine.loaded(),
    {
        match command {
            Command::Quit => Action::Quit,
            Command::Print => Action::Print,
            Command::Run => self.run(),
            Command::Next => self.next(),
            Command::Continue => self.cont(),
            Command::Logon => {
                self.engine.set_verbose(true);
                Action::Done
            },
            Command::Logoff => {
                self.engine.set_verbose(false);
                Action::Done
            },
            Command::Break(address) => self.add_break(address),
        }
    }
}

} // verus!
