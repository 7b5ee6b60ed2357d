//! The dispatcher: the loop of the shell as a state machine.
//!
//! The shell itself reads no terminal, asks no file system and starts no
//! process. It says what it needs next, as an [`Action`], and is told what
//! came of it, as an [`Event`]. Its host performs the actions:
//!
//! ```text
//! let mut action = shell.request();
//! loop {
//!     print the lines of shell.take_output();
//!     let event = perform(action);      // ends the process on Action::Exit
//!     action = shell.step(event);
//! }
//! ```

use crate::builtins::{
    cd, cd_context, cd_status, echo, exit, exit_status, pwd, type_cmd, type_line, type_report,
    type_status, Context, ContextView, Resolved, ReturnCode,
};
use crate::command::parse;
use crate::paths::{candidates, join, join_path, resolve};
use crate::registry::Builtin;
use crate::text::{
    is_space, is_word, joined, lemma_blank_has_no_tokens, lemma_tokens_are_words,
    lemma_tokens_of_joined, lemma_trimmed_ends, lines, texts, tokens, trim, trimmed,
};
use vstd::prelude::*;

verus! {

/// What the host tells the shell.
#[derive(Clone, Debug, PartialEq, Eq)]
pub enum Event {
    /// A line was read from the terminal.
    Line(String),
    /// The paths, among those of an [`Action::Probe`], that are regular
    /// files.
    Files(Vec<String>),
    /// What the path of an [`Action::Resolve`] resolved to; nothing where it
    /// did not resolve.
    Resolved(Option<Resolved>),
    /// The program of an [`Action::Spawn`] is over. The exit code is
    /// missing where the platform reported none.
    Exited(Option<ReturnCode>),
}

/// What the shell asks of its host.
#[derive(Clone, Debug, PartialEq, Eq)]
pub enum Action {
    /// Show the prompt and read a line; answer with [`Event::Line`].
    ReadLine,
    /// Find out which of these paths are regular files; answer with
    /// [`Event::Files`].
    Probe(Vec<String>),
    /// Resolve this path to its canonical form and find out whether it is a
    /// directory; answer with [`Event::Resolved`].
    Resolve(String),
    /// Run a program with these arguments in this directory and wait for
    /// it; answer with [`Event::Exited`].
    Spawn { program: String, args: Vec<String>, directory: String },
    /// End the process with this status.
    Exit(ReturnCode),
}

/// Where the shell stands between two events.
enum Stage {
    Prompt,
    Typing { name: String },
    Changing { destination: String },
    Locating { line: String, name: String, args: Vec<String> },
    Running { program: String, args: Vec<String> },
    Terminated(ReturnCode),
}

/// A shell session: its context and the command in flight, if any.
pub struct Shell<'a> {
    context: Context<'a>,
    stage: Stage,
}

/// An event as contracts speak of it.
pub enum EventView {
    Line(Seq<char>),
    Files(Seq<Seq<char>>),
    Resolved(Option<(Seq<char>, bool)>),
    Exited(Option<ReturnCode>),
}

/// An action as contracts speak of it.
pub enum ActionView {
    ReadLine,
    Probe(Seq<Seq<char>>),
    Resolve(Seq<char>),
    Spawn { program: Seq<char>, args: Seq<Seq<char>>, directory: Seq<char> },
    Exit(ReturnCode),
}

/// Where a session stands between two events.
///
/// A session starts at the prompt and ends terminated. A command is
/// dispatched between a line and the prompt that follows it; where that
/// takes an answer from the host, the session waits for it at one of the
/// stages in between.
pub enum StageView {
    /// No command is in flight; the shell waits for a line.
    Prompt,
    /// `type` waits to learn where `name` is a regular file.
    Typing { name: Seq<char> },
    /// `cd` waits to learn what `destination` resolves to.
    Changing { destination: Seq<char> },
    /// The command `name` of `line` is no built-in command; the shell waits
    /// to learn where it is a regular file.
    Locating { line: Seq<char>, name: Seq<char>, args: Seq<Seq<char>> },
    /// A program runs; the shell waits for it to end.
    Running { program: Seq<char>, args: Seq<Seq<char>> },
    /// The session is over.
    Terminated(ReturnCode),
}

/// A session as contracts speak of it.
pub struct ShellView {
    pub context: ContextView,
    pub stage: StageView,
}

impl View for Event {
    type V = EventView;

    open spec fn view(&self) -> EventView {
        match self {
            Event::Line(raw) => EventView::Line(raw@),
            Event::Files(files) => EventView::Files(lines(files@)),
            Event::Resolved(target) => EventView::Resolved(
                match target {
                    Some(found) => Some((found.path@, found.is_dir)),
                    None => None,
                },
            ),
            Event::Exited(code) => EventView::Exited(*code),
        }
    }
}

impl View for Action {
    type V = ActionView;

    open spec fn view(&self) -> ActionView {
        match self {
            Action::ReadLine => ActionView::ReadLine,
            Action::Probe(paths) => ActionView::Probe(lines(paths@)),
            Action::Resolve(path) => ActionView::Resolve(path@),
            Action::Spawn { program, args, directory } => ActionView::Spawn {
                program: program@,
                args: lines(args@),
                directory: directory@,
            },
            Action::Exit(status) => ActionView::Exit(*status),
        }
    }
}

impl View for Stage {
    type V = StageView;

    closed spec fn view(&self) -> StageView {
        match self {
            Stage::Prompt => StageView::Prompt,
            Stage::Typing { name } => StageView::Typing { name: name@ },
            Stage::Changing { destination } => StageView::Changing { destination: destination@ },
            Stage::Locating { line, name, args } => StageView::Locating {
                line: line@,
                name: name@,
                args: lines(args@),
            },
            Stage::Running { program, args } => StageView::Running {
                program: program@,
                args: lines(args@),
            },
            Stage::Terminated(status) => StageView::Terminated(*status),
        }
    }
}

impl<'a> View for Shell<'a> {
    type V = ShellView;

    closed spec fn view(&self) -> ShellView {
        ShellView { context: self.context@, stage: self.stage@ }
    }
}

/// The session after a command gave `outcome` and left the context `c`:
/// back at the prompt with the status recorded where the session goes on,
/// over with that status where it ends.
pub open spec fn settle(c: ContextView, outcome: Result<ReturnCode, ReturnCode>) -> ShellView {
    match outcome {
        Ok(status) => ShellView { context: c.complete(status), stage: StageView::Prompt },
        Err(status) => ShellView { context: c, stage: StageView::Terminated(status) },
    }
}

/// The session after the line `raw` was read at the prompt.
///
/// A line that is white space throughout changes nothing. Of any other
/// line, taken without the white space at its ends, the first word is the
/// command and the others are its arguments. A command of the registry runs
/// at once, unless it is a `cd` or a `type` that first has to learn of the
/// file system. Any other command has to be located.
pub open spec fn accept(c: ContextView, raw: Seq<char>) -> ShellView {
    let line = trimmed(raw);
    if line.len() == 0 {
        ShellView { context: c, stage: StageView::Prompt }
    } else {
        let name = tokens(line)[0];
        let args = tokens(line).skip(1);
        if !c.registry.contains_key(name) {
            ShellView { context: c, stage: StageView::Locating { line, name, args } }
        } else {
            match c.registry[name] {
                Builtin::Exit => settle(c, Err(exit_status(c.last_status, args))),
                Builtin::Echo => settle(c.print(joined(args)), Ok(0)),
                Builtin::Pwd => settle(c.print(c.working_directory), Ok(0)),
                Builtin::Cd => if args.len() == 1 {
                    ShellView { context: c, stage: StageView::Changing { destination: args[0] } }
                } else {
                    settle(cd_context(c, args, None), Ok(cd_status(args, None)))
                },
                Builtin::Type => if args.len() == 1 && !c.registry.contains_key(args[0]) {
                    ShellView { context: c, stage: StageView::Typing { name: args[0] } }
                } else {
                    settle(c.print(type_line(c, args, Seq::empty())), Ok(type_status(args)))
                },
            }
        }
    }
}

/// The session after an event.
///
/// An event that does not answer what the session waits for changes
/// nothing; in particular nothing changes a session that is over.
pub open spec fn next(s: ShellView, e: EventView) -> ShellView {
    match (s.stage, e) {
        (StageView::Prompt, EventView::Line(raw)) => accept(s.context, raw),
        (StageView::Typing { name }, EventView::Files(files)) => settle(
            s.context.print(type_report(s.context, name, files)),
            Ok(0),
        ),
        (StageView::Changing { destination }, EventView::Resolved(target)) => settle(
            cd_context(s.context, seq![destination], target),
            Ok(cd_status(seq![destination], target)),
        ),
        (StageView::Locating { line, name, args }, EventView::Files(files)) => match resolve(
            name,
            s.context.search_path,
            files,
        ) {
            Some(program) => ShellView {
                context: s.context,
                stage: StageView::Running { program, args },
            },
            None => settle(s.context.print(line + ": command not found"@), Ok(1)),
        },
        (StageView::Running { program, args }, EventView::Exited(code)) => settle(
            s.context,
            Ok(
                match code {
                    Some(status) => status,
                    None => 1,
                },
            ),
        ),
        _ => s,
    }
}

/// What a session asks of its host.
pub open spec fn request(s: ShellView) -> ActionView {
    match s.stage {
        StageView::Prompt => ActionView::ReadLine,
        StageView::Typing { name } => ActionView::Probe(candidates(name, s.context.search_path)),
        StageView::Changing { destination } => ActionView::Resolve(
            join_path(s.context.working_directory, destination),
        ),
        StageView::Locating { line, name, args } => ActionView::Probe(
            candidates(name, s.context.search_path),
        ),
        StageView::Running { program, args } => ActionView::Spawn {
            program,
            args,
            directory: s.context.working_directory,
        },
        StageView::Terminated(status) => ActionView::Exit(status),
    }
}

/// The exit code of the process for a status: the status reduced to the
/// range of a byte.
pub open spec fn exit_code_of(status: ReturnCode) -> int {
    status as int % 256
}

/// The exit code of the process for the status with which the session
/// ended.
pub fn exit_code(status: ReturnCode) -> (code: u8)
    ensures
        code == exit_code_of(status),
{
    let low: i32 = status & 0xff;
    assert(0 <= low < 256 && low as int == status as int % 256) by (bit_vector)
        requires
            low == status & 0xff,
    ;
    low as u8
}

/// Copies of the words, owned.
fn owned(words: &[&str]) -> (copies: Vec<String>)
    ensures
        lines(copies@) == texts(words@),
{
    let n: usize = words.len();
    let mut copies: Vec<String> = Vec::new();
    let mut i: usize = 0;
    while i < n
        invariant
            i <= n,
            n == words@.len(),
            lines(copies@) == texts(words@).take(i as int),
        decreases n - i,
    {
        let copy = words[i].to_owned();
        proof {
            let all = texts(words@);
            assert(all.take(i + 1) =~= all.take(i as int).push(copy@));
        }
        copies.push(copy);
        i += 1;
    }
    copies
}

/// Copies of the strings.
fn copied(items: &Vec<String>) -> (copies: Vec<String>)
    ensures
        lines(copies@) == lines(items@),
{
    let n: usize = items.len();
    let mut copies: Vec<String> = Vec::new();
    let mut i: usize = 0;
    while i < n
        invariant
            i <= n,
            n == items@.len(),
            lines(copies@) == lines(items@).take(i as int),
        decreases n - i,
    {
        let copy = items[i].clone();
        proof {
            let all = lines(items@);
            assert(all.take(i + 1) =~= all.take(i as int).push(copy@));
        }
        copies.push(copy);
        i += 1;
    }
    copies
}

impl<'a> Shell<'a> {
    /// A session that starts at the prompt.
    pub fn new(context: Context<'a>) -> (shell: Self)
        ensures
            shell@ == (ShellView { context: context@, stage: StageView::Prompt }),
    {
        Shell { context, stage: Stage::Prompt }
    }

    /// The context of the session.
    pub fn context(&self) -> (c: &Context<'a>)
        ensures
            c@ == self@.context,
    {
        &self.context
    }

    /// Hands out the lines written since the last call, oldest first, and
    /// forgets them.
    pub fn take_output(&mut self) -> (written: Vec<String>)
        ensures
            lines(written@) == old(self)@.context.output,
            final(self)@ == (ShellView {
                context: ContextView { output: Seq::empty(), ..old(self)@.context },
                ..old(self)@
            }),
    {
        self.context.take_output()
    }

    /// What the session asks of its host now.
    pub fn request(&self) -> (action: Action)
        ensures
            action@ == request(self@),
    {
        match &self.stage {
            Stage::Prompt => Action::ReadLine,
            Stage::Typing { name } => Action::Probe(self.context.candidates(name.as_str())),
            Stage::Changing { destination } => Action::Resolve(
                join(self.context.working_directory(), destination.as_str()),
            ),
            Stage::Locating { line, name, args } => Action::Probe(
                self.context.candidates(name.as_str()),
            ),
            Stage::Running { program, args } => Action::Spawn {
                program: program.clone(),
                args: copied(args),
                directory: self.context.working_directory().to_owned(),
            },
            Stage::Terminated(status) => Action::Exit(*status),
        }
    }

    /// Takes the session to where a command left it.
    fn settle(&mut self, outcome: Result<ReturnCode, ReturnCode>)
        ensures
            final(self)@ == settle(old(self)@.context, outcome),
    {
        match outcome {
            Ok(status) => {
                self.context.complete(status);
                self.stage = Stage::Prompt;
            },
            Err(status) => {
                self.stage = Stage::Terminated(status);
            },
        }
    }

    /// Takes a line that was read at the prompt.
    fn accept(&mut self, raw: &str)
        ensures
            final(self)@ == accept(old(self)@.context, raw@),
    {
        let line = trim(raw);
        proof {
            lemma_trimmed_ends(raw@);
            lemma_blank_has_no_tokens(line@);
        }
        let command = match parse(line) {
            Some(command) => command,
            None => {
                self.stage = Stage::Prompt;
                return ;
            },
        };
        let name = command.name;
        let args = command.args.as_slice();
        assert(texts(args@) =~= tokens(line@).skip(1));
        match self.context.builtin(name) {
            Some(Builtin::Exit) => {
                let outcome = exit(&mut self.context, args);
                self.settle(outcome);
            },
            Some(Builtin::Echo) => {
                let outcome = echo(&mut self.context, args);
                self.settle(outcome);
            },
            Some(Builtin::Pwd) => {
                let outcome = pwd(&mut self.context, args);
                self.settle(outcome);
            },
            Some(Builtin::Cd) => {
                if args.len() == 1 {
                    self.stage = Stage::Changing { destination: args[0].to_owned() };
                } else {
                    let outcome = cd(&mut self.context, args, None);
                    self.settle(outcome);
                }
            },
            Some(Builtin::Type) => {
                if args.len() == 1 && self.context.builtin(args[0]).is_none() {
                    self.stage = Stage::Typing { name: args[0].to_owned() };
                } else {
                    let files: Vec<String> = Vec::new();
                    let outcome = type_cmd(&mut self.context, args, files.as_slice());
                    self.settle(outcome);
                }
            },
            None => {
                self.stage = Stage::Locating {
                    line: line.to_owned(),
                    name: name.to_owned(),
                    args: owned(args),
                };
            },
        }
    }

    /// Takes an event and says what the session asks for next.
    ///
    /// The event is the answer to the action that the session asked for
    /// last. Any other event is ignored: the session stays as it is and asks
    /// for the same again.
    pub fn step(&mut self, event: Event) -> (action: Action)
        ensures
            final(self)@ == next(old(self)@, event@),
            action@ == request(final(self)@),
    {
        let mut stage = Stage::Prompt;
        std::mem::swap(&mut self.stage, &mut stage);
        match stage {
            Stage::Prompt => {
                match event {
                    Event::Line(raw) => {
                        self.accept(raw.as_str());
                    },
                    _ => {},
                }
            },
            Stage::Typing { name } => {
                match event {
                    Event::Files(files) => {
                        let mut args: Vec<&str> = Vec::new();
                        args.push(name.as_str());
                        let outcome = type_cmd(&mut self.context, args.as_slice(), files.as_slice());
                        self.settle(outcome);
                    },
                    _ => {
                        self.stage = Stage::Typing { name };
                    },
                }
            },
            Stage::Changing { destination } => {
                match event {
                    Event::Resolved(target) => {
                        let mut args: Vec<&str> = Vec::new();
                        args.push(destination.as_str());
                        let outcome = cd(&mut self.context, args.as_slice(), target.as_ref());
                        self.settle(outcome);
                    },
                    _ => {
                        self.stage = Stage::Changing { destination };
                    },
                }
            },
            Stage::Locating { line, name, args } => {
                match event {
                    Event::Files(files) => {
                        match self.context.find_file(name.as_str(), files.as_slice()) {
                            Some(program) => {
                                self.stage = Stage::Running { program, args };
                            },
                            None => {
                                let mut complaint = line;
                                complaint.append(": command not found");
                                self.context.print(complaint);
                                self.settle(Ok(1));
                            },
                        }
                    },
                    _ => {
                        self.stage = Stage::Locating { line, name, args };
                    },
                }
            },
            Stage::Running { program, args } => {
                match event {
                    Event::Exited(code) => {
                        let status: ReturnCode = match code {
                            Some(status) => status,
                            None => 1,
                        };
                        self.settle(Ok(status));
                    },
                    _ => {
                        self.stage = Stage::Running { program, args };
                    },
                }
            },
            Stage::Terminated(status) => {
                self.stage = Stage::Terminated(status);
            },
        }
        self.request()
    }
}

/// A line that is white space throughout is no command: the session stays
/// at the prompt, and its context, the last status with it, stays as it
/// was.
pub proof fn lemma_blank_line_changes_nothing(c: ContextView, raw: Seq<char>)
    requires
        forall|i: int| 0 <= i < raw.len() ==> is_space(#[trigger] raw[i]),
    ensures
        next(ShellView { context: c, stage: StageView::Prompt }, EventView::Line(raw)) == (ShellView {
            context: c,
            stage: StageView::Prompt,
        }),
{
    lemma_trimmed_ends(raw);
}

/// Nothing changes a session that is over.
pub proof fn lemma_terminated_is_final(s: ShellView, e: EventView)
    requires
        s.stage is Terminated,
    ensures
        next(s, e) == s,
{
}

/// A line that holds the name of the `exit` operation and nothing else ends
/// the session with the status of the last command.
pub proof fn lemma_exit_ends_with_last_status(c: ContextView, raw: Seq<char>)
    requires
        tokens(trimmed(raw)).len() == 1,
        c.registry.contains_key(tokens(trimmed(raw))[0]),
        c.registry[tokens(trimmed(raw))[0]] == Builtin::Exit,
    ensures
        next(ShellView { context: c, stage: StageView::Prompt }, EventView::Line(raw)) == (ShellView {
            context: c,
            stage: StageView::Terminated(c.last_status),
        }),
{
    assert(trimmed(raw).len() > 0);
}

/// A `cd` with one argument whose destination cannot be entered leaves the
/// working directory as it was, sets the status to 1 and returns to the
/// prompt.
pub proof fn lemma_failed_cd_in_session(
    c: ContextView,
    destination: Seq<char>,
    target: Option<(Seq<char>, bool)>,
)
    requires
        target matches Some((_, is_dir)) ==> !is_dir,
    ensures
        ({
            let after = next(
                ShellView { context: c, stage: StageView::Changing { destination } },
                EventView::Resolved(target),
            );
            &&& after.stage == StageView::Prompt
            &&& after.context.working_directory == c.working_directory
            &&& after.context.last_status == 1
        }),
{
}

/// A command that is no built-in command and is a regular file in no
/// directory of the search path is not found: the shell writes the line as
/// it was entered, without the white space at its ends, followed by
/// `: command not found`, sets the status to 1 and returns to the prompt.
pub proof fn lemma_unknown_command(c: ContextView, raw: Seq<char>, files: Seq<Seq<char>>)
    requires
        trimmed(raw).len() > 0,
        !c.registry.contains_key(tokens(trimmed(raw))[0]),
        resolve(tokens(trimmed(raw))[0], c.search_path, files) is None,
    ensures
        next(
            next(ShellView { context: c, stage: StageView::Prompt }, EventView::Line(raw)),
            EventView::Files(files),
        ) == (ShellView {
            context: c.print(trimmed(raw) + ": command not found"@).complete(1),
            stage: StageView::Prompt,
        }),
{
}

/// A `type` of a name of the registry answers at once, without a look at
/// the file system, that the name is a built-in command.
pub proof fn lemma_type_of_builtin(c: ContextView, raw: Seq<char>)
    requires
        tokens(trimmed(raw)).len() == 2,
        c.registry.contains_key(tokens(trimmed(raw))[0]),
        c.registry[tokens(trimmed(raw))[0]] == Builtin::Type,
        c.registry.contains_key(tokens(trimmed(raw))[1]),
    ensures
        next(ShellView { context: c, stage: StageView::Prompt }, EventView::Line(raw)) == (ShellView {
            context: c.print(tokens(trimmed(raw))[1] + " is a shell builtin"@).complete(0),
            stage: StageView::Prompt,
        }),
{
    assert(trimmed(raw).len() > 0);
    assert(tokens(trimmed(raw)).skip(1)[0] == tokens(trimmed(raw))[1]);
}

/// No event changes what the session was set up with: the search path, the
/// home directory and the registry stay as they are. What was written
/// stays written.
pub proof fn lemma_session_keeps_configuration(s: ShellView, e: EventView)
    ensures
        next(s, e).context.search_path == s.context.search_path,
        next(s, e).context.home == s.context.home,
        next(s, e).context.registry == s.context.registry,
        s.context.output.is_prefix_of(next(s, e).context.output),
{
}

/// `echo` writes its arguments on one line with single spaces between
/// them, whatever white space stood between them on the line that was
/// entered; the line that it writes splits into the same words again. The
/// status is 0.
pub proof fn lemma_echo_writes_its_words(c: ContextView, raw: Seq<char>)
    requires
        trimmed(raw).len() > 0,
        c.registry.contains_key(tokens(trimmed(raw))[0]),
        c.registry[tokens(trimmed(raw))[0]] == Builtin::Echo,
    ensures
        ({
            let args = tokens(trimmed(raw)).skip(1);
            &&& next(ShellView { context: c, stage: StageView::Prompt }, EventView::Line(raw))
                == (ShellView {
                context: c.print(joined(args)).complete(0),
                stage: StageView::Prompt,
            })
            &&& tokens(joined(args)) == args
        }),
{
    let words = tokens(trimmed(raw));
    let args = words.skip(1);
    lemma_trimmed_ends(raw);
    lemma_tokens_are_words(trimmed(raw));
    assert forall|k: int| 0 <= k < args.len() implies is_word(#[trigger] args[k]) by {
        assert(args[k] == words[k + 1]);
    }
    lemma_tokens_of_joined(args);
}

} // verus!
