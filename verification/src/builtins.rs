//! The execution context of a shell session and the built-in commands that
//! read and change it.
//!
//! A built-in command writes to standard output by adding lines to the
//! context; the host of the shell takes them from there and prints them.
//! What a command has to know of the file system is handed to it as a plain
//! value, so that every command is a function of its arguments alone.

use crate::number::{parse_i32, parse_int};
use crate::paths::{candidates, find_along, join_path, list_candidates, resolve, text_of};
use crate::registry::{Builtin, Builtins};
use crate::text::{join_words, joined, lines, texts};
use vstd::prelude::*;

verus! {

/// The status that a command leaves behind.
pub type ReturnCode = i32;

/// What the platform found when it resolved a path: the canonical path,
/// and whether it is a directory.
#[derive(Clone, Debug, PartialEq, Eq)]
pub struct Resolved {
    pub path: String,
    pub is_dir: bool,
}

/// Shell execution context: the state of one session.
pub struct Context<'a> {
    last_code: ReturnCode,
    builtins: &'a Builtins,
    current: String,
    path: Vec<String>,
    home: String,
    output: Vec<String>,
}

/// The state of a session as contracts speak of it.
pub struct ContextView {
    /// Status of the command that completed last; 0 before the first.
    pub last_status: ReturnCode,
    /// The directory in which paths are read and programs are started.
    pub working_directory: Seq<char>,
    /// The directories in which programs are looked for, in order.
    pub search_path: Seq<Seq<char>>,
    /// The directory that `cd` without arguments enters.
    pub home: Seq<char>,
    /// The built-in commands by name.
    pub registry: Map<Seq<char>, Builtin>,
    /// The lines written to standard output that the host has not taken yet.
    pub output: Seq<Seq<char>>,
}

impl ContextView {
    /// The state after one more line was written.
    pub open spec fn print(self, line: Seq<char>) -> ContextView {
        ContextView { output: self.output.push(line), ..self }
    }

    /// The state after the working directory became `directory`.
    pub open spec fn enter(self, directory: Seq<char>) -> ContextView {
        ContextView { working_directory: directory, ..self }
    }

    /// The state after a command completed with `status`.
    pub open spec fn complete(self, status: ReturnCode) -> ContextView {
        ContextView { last_status: status, ..self }
    }
}

/// The resolution of a path as contracts speak of it: the canonical path
/// and whether it is a directory, or nothing where the path did not
/// resolve.
pub open spec fn resolution(target: Option<&Resolved>) -> Option<(Seq<char>, bool)> {
    match target {
        Some(found) => Some((found.path@, found.is_dir)),
        None => None,
    }
}

/// The status with which `exit` ends the session: the number that its one
/// argument writes, 0 where that argument writes none, and the last status
/// for any other count of arguments.
pub open spec fn exit_status(last: ReturnCode, args: Seq<Seq<char>>) -> ReturnCode {
    if args.len() == 1 {
        match parse_i32(args[0]) {
            Some(status) => status,
            None => 0,
        }
    } else {
        last
    }
}

/// The path that the platform has to resolve before `cd` can run: that of
/// the one argument, read in the working directory. With any other count of
/// arguments `cd` needs none.
pub open spec fn cd_target(c: ContextView, args: Seq<Seq<char>>) -> Option<Seq<char>> {
    if args.len() == 1 {
        Some(join_path(c.working_directory, args[0]))
    } else {
        None
    }
}

/// The status of `cd`: 0 where it entered a directory, 1 where it did not.
pub open spec fn cd_status(args: Seq<Seq<char>>, target: Option<(Seq<char>, bool)>) -> ReturnCode {
    if args.len() == 0 {
        0
    } else if args.len() == 1 {
        match target {
            Some((_, true)) => 0,
            _ => 1,
        }
    } else {
        1
    }
}

/// The state that `cd` leaves.
///
/// Without arguments it enters the home directory. With one it enters the
/// resolved path where that is a directory; where it is none it complains of
/// the resolved path, and where nothing was resolved, of the argument, and
/// stays. With more arguments it does nothing.
pub open spec fn cd_context(
    c: ContextView,
    args: Seq<Seq<char>>,
    target: Option<(Seq<char>, bool)>,
) -> ContextView {
    if args.len() == 0 {
        c.enter(c.home)
    } else if args.len() == 1 {
        match target {
            Some((path, is_dir)) => if is_dir {
                c.enter(path)
            } else {
                c.print(path + ": No such file or directory"@)
            },
            None => c.print(args[0] + ": No such file or directory"@),
        }
    } else {
        c
    }
}

/// What `type` says of a name: a built-in command where the registry has
/// the name, else the path at which it is found along the search path, else
/// that it is not found.
pub open spec fn type_report(c: ContextView, name: Seq<char>, files: Seq<Seq<char>>) -> Seq<char> {
    if c.registry.contains_key(name) {
        name + " is a shell builtin"@
    } else {
        match resolve(name, c.search_path, files) {
            Some(path) => name + " is "@ + path,
            None => name + " not found"@,
        }
    }
}

/// The line that `type` writes: its report on the one argument, or how to
/// use it for any other count of arguments.
pub open spec fn type_line(c: ContextView, args: Seq<Seq<char>>, files: Seq<Seq<char>>) -> Seq<
    char,
> {
    if args.len() == 1 {
        type_report(c, args[0], files)
    } else {
        "type function requires arguments"@
    }
}

/// The status of `type`: 0 where it had one argument, else 1.
pub open spec fn type_status(args: Seq<Seq<char>>) -> ReturnCode {
    if args.len() == 1 {
        0
    } else {
        1
    }
}

impl<'a> View for Context<'a> {
    type V = ContextView;

    closed spec fn view(&self) -> ContextView {
        ContextView {
            last_status: self.last_code,
            working_directory: self.current@,
            search_path: lines(self.path@),
            home: self.home@,
            registry: self.builtins@,
            output: lines(self.output@),
        }
    }
}

impl<'a> Context<'a> {
    /// The context of a session that starts in the directory `current`.
    ///
    /// The last status is 0 and nothing is written. The search path and
    /// the home directory are empty until they are set.
    pub fn new(current: String, builtins: &'a Builtins) -> (c: Self)
        ensures
            c@ == (ContextView {
                last_status: 0,
                working_directory: current@,
                search_path: Seq::empty(),
                home: Seq::empty(),
                registry: builtins@,
                output: Seq::empty(),
            }),
    {
        let c = Context {
            last_code: 0,
            builtins,
            current,
            path: Vec::new(),
            home: String::new(),
            output: Vec::new(),
        };
        assert(lines(c.output@) =~= Seq::<Seq<char>>::empty());
        c
    }

    /// The same context with `path` as its search path.
    pub fn with_search_path(self, path: Vec<String>) -> (c: Self)
        ensures
            c@ == (ContextView { search_path: lines(path@), ..self@ }),
    {
        Context { path, ..self }
    }

    /// The same context with `home` as its home directory.
    pub fn with_home(self, home: String) -> (c: Self)
        ensures
            c@ == (ContextView { home: home@, ..self@ }),
    {
        Context { home, ..self }
    }

    /// The home directory.
    pub fn home(&self) -> (home: String)
        ensures
            home@ == self@.home,
    {
        self.home.clone()
    }

    /// The working directory.
    pub fn working_directory(&self) -> (current: &str)
        ensures
            current@ == self@.working_directory,
    {
        self.current.as_str()
    }

    /// The status of the command that completed last.
    pub fn last_status(&self) -> (status: ReturnCode)
        ensures
            status == self@.last_status,
    {
        self.last_code
    }

    /// The operation that `name` stands for, if it names a built-in
    /// command.
    pub fn builtin(&self, name: &str) -> (operation: Option<Builtin>)
        ensures
            operation == (if self@.registry.contains_key(name@) {
                Some(self@.registry[name@])
            } else {
                None
            }),
    {
        self.builtins.lookup(name)
    }

    /// The paths that a search for `name` has to try: its path in each
    /// directory of the search path, in order.
    pub fn candidates(&self, name: &str) -> (tried: Vec<String>)
        ensures
            lines(tried@) == candidates(name@, self@.search_path),
    {
        list_candidates(name, self.path.as_slice())
    }

    /// Finds a file along the search path.
    ///
    /// `files` lists the paths that are regular files. The result is the
    /// path of `name` in the first directory of the search path in which it
    /// is one, and nothing where it is one in none.
    pub fn find_file(&self, name: &str, files: &[String]) -> (found: Option<String>)
        ensures
            text_of(found) == resolve(name@, self@.search_path, lines(files@)),
    {
        find_along(name, self.path.as_slice(), files)
    }

    /// Records the status of a command that completed.
    pub fn complete(&mut self, status: ReturnCode)
        ensures
            final(self)@ == old(self)@.complete(status),
    {
        self.last_code = status;
    }

    /// Writes a line to standard output.
    pub fn print(&mut self, line: String)
        ensures
            final(self)@ == old(self)@.print(line@),
    {
        proof {
            assert(lines(self.output@.push(line)) =~= lines(self.output@).push(line@));
        }
        self.output.push(line);
    }

    /// Hands out the lines written since the last call, oldest first, and
    /// forgets them.
    pub fn take_output(&mut self) -> (written: Vec<String>)
        ensures
            lines(written@) == old(self)@.output,
            final(self)@ == (ContextView { output: Seq::empty(), ..old(self)@ }),
    {
        let mut written: Vec<String> = Vec::new();
        std::mem::swap(&mut self.output, &mut written);
        assert(lines(self.output@) =~= Seq::<Seq<char>>::empty());
        written
    }
}

/// Ends the session.
///
/// With one argument the session ends with the number that the argument
/// writes, or with 0 where it writes none. With no argument, or with more
/// than one, it ends with the status of the last command. The context stays
/// as it is.
pub fn exit(c: &mut Context, args: &[&str]) -> (outcome: Result<ReturnCode, ReturnCode>)
    ensures
        outcome == Err::<ReturnCode, ReturnCode>(exit_status(old(c)@.last_status, texts(args@))),
        final(c)@ == old(c)@,
{
    if args.len() == 1 {
        match parse_int(args[0]) {
            Some(status) => Err(status),
            None => Err(0),
        }
    } else {
        Err(c.last_code)
    }
}

/// Writes the arguments on one line, with a single space between
/// neighbours. The session goes on with status 0.
pub fn echo(c: &mut Context, args: &[&str]) -> (outcome: Result<ReturnCode, ReturnCode>)
    ensures
        outcome == Ok::<ReturnCode, ReturnCode>(0),
        final(c)@ == old(c)@.print(joined(texts(args@))),
{
    c.print(join_words(args));
    Ok(0)
}

/// Writes the working directory. The session goes on with status 0.
pub fn pwd(c: &mut Context, _args: &[&str]) -> (outcome: Result<ReturnCode, ReturnCode>)
    ensures
        outcome == Ok::<ReturnCode, ReturnCode>(0),
        final(c)@ == old(c)@.print(old(c)@.working_directory),
{
    let line = c.current.clone();
    c.print(line);
    Ok(0)
}

/// The path that the platform has to resolve before `cd` runs with these
/// arguments, if it needs one.
pub fn cd_request(c: &Context, args: &[&str]) -> (path: Option<String>)
    ensures
        text_of(path) == cd_target(c@, texts(args@)),
{
    if args.len() == 1 {
        Some(crate::paths::join(c.current.as_str(), args[0]))
    } else {
        None
    }
}

/// Changes the working directory.
///
/// `target` is what the platform found when it resolved the path that
/// `cd_request` names: nothing where the path does not resolve.
///
/// Without arguments the home directory becomes the working directory. With
/// one argument the resolved path does, where it is a directory; else a
/// complaint is written, the working directory stays, and the status is 1.
/// More than one argument gives status 1 and nothing else.
pub fn cd(c: &mut Context, args: &[&str], target: Option<&Resolved>) -> (outcome: Result<
    ReturnCode,
    ReturnCode,
>)
    ensures
        outcome == Ok::<ReturnCode, ReturnCode>(cd_status(texts(args@), resolution(target))),
        final(c)@ == cd_context(old(c)@, texts(args@), resolution(target)),
{
    if args.len() == 0 {
        c.current = c.home.clone();
        Ok(0)
    } else if args.len() == 1 {
        match target {
            Some(found) => {
                if found.is_dir {
                    c.current = found.path.clone();
                    Ok(0)
                } else {
                    let mut line = found.path.clone();
                    line.append(": No such file or directory");
                    c.print(line);
                    Ok(1)
                }
            },
            None => {
                let mut line = args[0].to_owned();
                line.append(": No such file or directory");
                c.print(line);
                Ok(1)
            },
        }
    } else {
        Ok(1)
    }
}

/// Says what a command name stands for.
///
/// `files` lists the paths that are regular files, among those that a search
/// for the name has to try.
///
/// With one argument a line is written that says whether the name is a
/// built-in command, or where it is found along the search path, or that it
/// is not found; the registry is asked first. The status is 0 whatever the
/// line says. With any other count of arguments a line on the usage is
/// written and the status is 1.
pub fn type_cmd(c: &mut Context, args: &[&str], files: &[String]) -> (outcome: Result<
    ReturnCode,
    ReturnCode,
>)
    ensures
        outcome == Ok::<ReturnCode, ReturnCode>(type_status(texts(args@))),
        final(c)@ == old(c)@.print(type_line(old(c)@, texts(args@), lines(files@))),
{
    if args.len() == 1 {
        let name = args[0];
        let mut line = name.to_owned();
        if c.builtins.contains_key(name) {
            line.append(" is a shell builtin");
        } else {
            match c.find_file(name, files) {
                Some(path) => {
                    line.append(" is ");
                    line.append(path.as_str());
                },
                None => {
                    line.append(" not found");
                },
            }
        }
        c.print(line);
        Ok(0)
    } else {
        c.print("type function requires arguments".to_owned());
        Ok(1)
    }
}

/// `exit` without arguments ends the session with the status of the last
/// command.
pub proof fn lemma_exit_propagates_status(last: ReturnCode)
    ensures
        exit_status(last, Seq::empty()) == last,
{
}

/// A `cd` that cannot enter its destination, because the path does not
/// resolve or resolves to something that is no directory, leaves the
/// working directory as it was and has status 1.
pub proof fn lemma_failed_cd_stays(
    c: ContextView,
    destination: Seq<char>,
    target: Option<(Seq<char>, bool)>,
)
    requires
        target matches Some((_, is_dir)) ==> !is_dir,
    ensures
        cd_context(c, seq![destination], target).working_directory == c.working_directory,
        cd_status(seq![destination], target) == 1,
{
}

/// `cd` enters nothing but the home directory, which it enters when it has
/// no arguments, and a path that resolved to a directory.
pub proof fn lemma_cd_enters_directories(
    c: ContextView,
    args: Seq<Seq<char>>,
    target: Option<(Seq<char>, bool)>,
)
    ensures
        ({
            let entered = cd_context(c, args, target).working_directory;
            ||| entered == c.working_directory
            ||| args.len() == 0 && entered == c.home
            ||| args.len() == 1 && target == Some((entered, true))
        }),
{
}

/// `type` reports a name of the registry as a built-in command, whether or
/// not a file of that name is found along the search path: the registry is
/// asked first.
pub proof fn lemma_type_prefers_builtin(c: ContextView, name: Seq<char>, files: Seq<Seq<char>>)
    requires
        c.registry.contains_key(name),
    ensures
        type_line(c, seq![name], files) == name + " is a shell builtin"@,
{
}

} // verus!
