use crate::error::{not_found_reason, CommandError};
use crate::path_resolver::{found_first, joined_path, none_found, WindowsPathResolver};
use std::rc::Rc;
use vstd::prelude::*;

verus! {

/// How a program token is resolved.
#[derive(Clone, Copy, Debug, PartialEq, Eq, Structural)]
pub enum CommandScope {
    /// The token is an explicit path and names a file to run.
    Local,
    /// The token is a name: a builtin first, then the search path.
    Global,
}

/// A program to start: the file and its arguments.
pub struct ProcessLaunch {
    pub program: String,
    pub arguments: Vec<String>,
}

/// A command run as an operating-system process.
pub struct ExecuteCommand {
    pub command_executable: String,
    pub command_scope: CommandScope,
    pub arguments: Vec<String>,
    pub path_resolver: Rc<WindowsPathResolver>,
}

/// A command run in-process by a registered handler.
pub struct BuiltinCommand<H> {
    pub handler: Rc<H>,
    pub arguments: Vec<String>,
}

/// Two commands chained: the output of `first` is the input of `rest`.
pub struct PipeCommand<H> {
    pub first: Box<Command<H>>,
    pub rest: Box<Command<H>>,
}

/// A node of a command tree.
pub enum Command<H> {
    External(ExecuteCommand),
    Builtin(BuiltinCommand<H>),
    Pipe(PipeCommand<H>),
}

/// The values behind a list of references.
pub open spec fn derefs<'a, T>(s: Seq<&'a T>) -> Seq<T> {
    s.map_values(|c: &T| *c)
}

/// The views of a list of strings.
pub open spec fn strings_view(v: Seq<String>) -> Seq<Seq<char>> {
    v.map_values(|s: String| s@)
}

impl ExecuteCommand {
    pub fn new(
        command_name: String,
        command_scope: CommandScope,
        arguments: Vec<String>,
        path_resolver: Rc<WindowsPathResolver>,
    ) -> (r: ExecuteCommand)
        ensures
            r.command_executable == command_name,
            r.command_scope == command_scope,
            r.arguments == arguments,
            r.path_resolver == path_resolver,
    {
        ExecuteCommand {
            command_executable: command_name,
            command_scope,
            arguments,
            path_resolver,
        }
    }

    /// Resolves the program and pairs it with the arguments. A local token is
    /// joined to `current_directory`; a global one is searched for along the
    /// path, asking `probe` about each candidate file.
    pub fn create_command<F: Fn(&str, &str) -> Option<String>>(
        &self,
        current_directory: &str,
        probe: &F,
    ) -> (r: Result<ProcessLaunch, CommandError>)
        requires
            forall|d: &str, f: &str| #[trigger] probe.requires((d, f)),
        ensures
            self.command_scope == CommandScope::Local ==> (r matches Ok(launch)
                && launch.program@ == joined_path(
                current_directory@,
                self.command_executable@,
            )),
            r matches Ok(launch) ==> strings_view(launch.arguments@) == strings_view(
                self.arguments@,
            ),
            self.command_scope == CommandScope::Global ==> match r {
                Ok(launch) => found_first(
                    self.path_resolver.directories(),
                    self.path_resolver.suffixes(),
                    self.command_executable@,
                    *probe,
                    launch.program,
                ),
                Err(e) => e.reason_spec() == not_found_reason() && none_found(
                    self.path_resolver.directories(),
                    self.path_resolver.suffixes(),
                    self.command_executable@,
                    *probe,
                ),
            },
    {
        let program = match self.command_scope {
            CommandScope::Local => self.path_resolver.resolve_command_local(
                current_directory,
                self.command_executable.as_str(),
            ),
            CommandScope::Global => self.path_resolver.resolve_command_global(
                self.command_executable.as_str(),
                probe,
            ),
        };
        match program {
            Ok(program) => Ok(ProcessLaunch { program, arguments: clone_strings(&self.arguments) }),
            Err(e) => Err(e),
        }
    }
}

/// A copy of a list of strings.
pub fn clone_strings(v: &Vec<String>) -> (r: Vec<String>)
    ensures
        r@ == v@,
{
    let mut r: Vec<String> = Vec::new();
    let mut i: usize = 0;
    while i < v.len()
        invariant
            i <= v@.len(),
            r@ == v@.subrange(0, i as int),
        decreases v@.len() - i,
    {
        r.push(v[i].clone());
        i = i + 1;
        proof {
            assert(r@ =~= v@.subrange(0, i as int));
        }
    }
    proof {
        assert(v@.subrange(0, i as int) =~= v@);
    }
    r
}

impl<H> BuiltinCommand<H> {
    pub fn new(handler: Rc<H>, arguments: Vec<String>) -> (r: BuiltinCommand<H>)
        ensures
            r.handler == handler,
            r.arguments == arguments,
    {
        BuiltinCommand { handler, arguments }
    }
}

impl<H> PipeCommand<H> {
    /// Chains `first`, which runs first, to `rest`, which takes its output.
    pub fn new(first: Box<Command<H>>, rest: Box<Command<H>>) -> (r: PipeCommand<H>)
        ensures
            r.first == first,
            r.rest == rest,
    {
        PipeCommand { first, rest }
    }
}

impl<H> Command<H> {
    /// The stages of the command, left to right as written: a pipe is the
    /// stages of its first command followed by those of the rest.
    pub open spec fn stages(&self) -> Seq<Command<H>>
        decreases self,
    {
        match self {
            Command::Pipe(p) => p.first.stages() + p.rest.stages(),
            _ => seq![*self],
        }
    }

    /// Every pipe's first command is a single stage, as a parsed line gives.
    pub open spec fn is_chain(&self) -> bool
        decreases self,
    {
        match self {
            Command::Pipe(p) => !(*p.first is Pipe) && p.rest.is_chain(),
            _ => true,
        }
    }

    /// Appends references to the stages of the command to `out`, left to right.
    pub fn collect_stages<'a>(&'a self, out: &mut Vec<&'a Command<H>>)
        ensures
            derefs(final(out)@) == derefs(old(out)@) + self.stages(),
        decreases self,
    {
        match self {
            Command::Pipe(p) => {
                p.first.collect_stages(out);
                p.rest.collect_stages(out);
                proof {
                    assert(derefs(final(out)@) =~= derefs(old(out)@) + self.stages());
                }
            },
            _ => {
                out.push(self);
                proof {
                    assert(derefs(final(out)@) =~= derefs(old(out)@) + self.stages());
                }
            },
        }
    }

    /// The stages of the command, left to right.
    pub fn stage_list(&self) -> (r: Vec<&Command<H>>)
        ensures
            derefs(r@) == self.stages(),
    {
        let mut out: Vec<&Command<H>> = Vec::new();
        self.collect_stages(&mut out);
        proof {
            assert(derefs(out@) =~= self.stages());
        }
        out
    }

    /// Stage lists are never empty.
    pub proof fn lemma_stages_nonempty(&self)
        ensures
            self.stages().len() >= 1,
            forall|k: int| 0 <= k < self.stages().len() ==> !(#[trigger] self.stages()[k] is Pipe),
        decreases self,
    {
        match self {
            Command::Pipe(p) => {
                p.first.lemma_stages_nonempty();
                p.rest.lemma_stages_nonempty();
                assert forall|k: int| 0 <= k < self.stages().len() implies !(
                #[trigger] self.stages()[k] is Pipe) by {
                    if k < p.first.stages().len() {
                        assert(self.stages()[k] == p.first.stages()[k]);
                    } else {
                        assert(self.stages()[k] == p.rest.stages()[k - p.first.stages().len()]);
                    }
                }
            },
            _ => {},
        }
    }
}

} // verus!
