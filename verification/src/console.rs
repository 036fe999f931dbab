//! Command-line arguments shared by the commands, and how a command's own
//! arguments are merged into the global ones.
use vstd::prelude::*;

use crate::error::{Error, ErrorType};
use crate::table::{find_key, keys_unique, lemma_table_remove, table_insert, table_map};
use crate::text::{chars_of, push_all, string_of};

verus! {

/// The arguments that every command accepts.
#[derive(Debug, Clone)]
pub struct ConsoleArguments {
    pub config: Option<String>,
    pub quiet: bool,
    pub verbose: bool,
    pub trace: bool,
    pub development: bool,
    pub allow_root: bool,
}

/// The outcome of a command.
#[derive(Debug, Clone, Copy, PartialEq, Eq, Structural)]
pub enum ConsoleResult {
    OK,
    Fail,
    Canceled,
    Terminated,
    Error,
}

/// The configuration file named by arguments, as characters.
pub open spec fn config_view(a: ConsoleArguments) -> Option<Seq<char>> {
    match a.config {
        Some(c) => Some(c@),
        None => None,
    }
}

impl ConsoleArguments {
    /// No configuration file and every flag off.
    pub fn new() -> (r: ConsoleArguments)
        ensures
            r.config is None,
            !r.quiet && !r.verbose && !r.trace && !r.development && !r.allow_root,
    {
        ConsoleArguments {
            config: None,
            quiet: false,
            verbose: false,
            trace: false,
            development: false,
            allow_root: false,
        }
    }

    fn duplicate(&self) -> (r: ConsoleArguments)
        ensures
            config_view(r) == config_view(*self),
            r.quiet == self.quiet,
            r.verbose == self.verbose,
            r.trace == self.trace,
            r.development == self.development,
            r.allow_root == self.allow_root,
    {
        ConsoleArguments {
            config: match &self.config {
                Some(c) => Some(c.clone()),
                None => None,
            },
            quiet: self.quiet,
            verbose: self.verbose,
            trace: self.trace,
            development: self.development,
            allow_root: self.allow_root,
        }
    }
}

/// The command-line front end: the raw arguments, those used when there
/// are none, and the registered commands by name (`C` is what a command is
/// to the caller).
pub struct Cli<C> {
    pub raw: Vec<String>,
    pub empty_arg: Vec<String>,
    pub registry: Vec<(String, C)>,
    pub args: ConsoleArguments,
    pub running: bool,
}

impl<C> Cli<C> {
    /// A front end for the given raw arguments, with no command yet.
    pub fn new(raw: Vec<String>) -> (r: Cli<C>)
        ensures
            r.raw == raw,
            r.empty_arg@.len() == 0,
            r.registry@.len() == 0,
            config_view(r.args) is None,
            !r.running,
    {
        Cli { raw, empty_arg: Vec::new(), registry: Vec::new(), args: ConsoleArguments::new(), running: false }
    }

    /// No command name is registered twice.
    pub open spec fn well_formed(&self) -> bool {
        keys_unique(self.registry@)
    }

    pub fn raw_args(&self) -> (r: &Vec<String>)
        ensures
            *r == self.raw,
    {
        &self.raw
    }

    pub fn get_console_arguments(&self) -> (r: &ConsoleArguments)
        ensures
            *r == self.args,
    {
        &self.args
    }

    /// Registers a command under its name: `AlreadyRunning` once running,
    /// `AlreadyExists` when the name is taken; either error leaves the
    /// registry as it was.
    pub fn add_command(&mut self, name: String, cmd: C) -> (r: Result<(), Error>)
        requires
            old(self).well_formed(),
        ensures
            final(self).well_formed(),
            final(self).running == old(self).running,
            match r {
                Ok(()) => !old(self).running && !table_map(old(self).registry@).contains_key(name@)
                    && table_map(final(self).registry@) == table_map(old(self).registry@).insert(name@, cmd),
                Err(e) => final(self).registry@ == old(self).registry@ && if old(self).running {
                    e@ == (ErrorType::AlreadyRunning, "Cannot add command after running the application."@)
                } else {
                    table_map(old(self).registry@).contains_key(name@) && e@ == (
                        ErrorType::AlreadyExists,
                        "Command already exists."@,
                    )
                },
            },
    {
        if self.running {
            return Err(Error::already_running("Cannot add command after running the application."));
        }
        let k = chars_of(name.as_str());
        if find_key(&self.registry, &k).is_some() {
            return Err(Error::already_exists("Command already exists."));
        }
        table_insert(&mut self.registry, name, cmd);
        Ok(())
    }

    pub fn has_command(&self, name: &str) -> (r: bool)
        requires
            self.well_formed(),
        ensures
            r == table_map(self.registry@).contains_key(name@),
    {
        let k = chars_of(name);
        find_key(&self.registry, &k).is_some()
    }

    /// Removes a command; false once running or when no command has that
    /// name.
    pub fn remove_command(&mut self, name: &str) -> (r: bool)
        requires
            old(self).well_formed(),
        ensures
            final(self).well_formed(),
            final(self).running == old(self).running,
            r == (!old(self).running && table_map(old(self).registry@).contains_key(name@)),
            table_map(final(self).registry@) == if r {
                table_map(old(self).registry@).remove(name@)
            } else {
                table_map(old(self).registry@)
            },
    {
        if self.running {
            return false;
        }
        let k = chars_of(name);
        match find_key(&self.registry, &k) {
            Some(i) => {
                proof {
                    lemma_table_remove(self.registry@, i as int);
                }
                self.registry.remove(i);
                true
            },
            None => false,
        }
    }

    /// The arguments used when the raw ones are empty.
    pub fn set_empty_arg(&mut self, arg: Vec<String>)
        ensures
            final(self).empty_arg == arg,
            final(self).raw == old(self).raw,
            final(self).registry == old(self).registry,
            final(self).running == old(self).running,
    {
        self.empty_arg = arg;
    }

    /// The command of a name; `NotFound` when none has it.
    pub fn get_command(&self, name: &str) -> (r: Result<&C, Error>)
        requires
            self.well_formed(),
        ensures
            match r {
                Ok(c) => table_map(self.registry@).contains_key(name@) && *c == table_map(self.registry@)[name@],
                Err(e) => !table_map(self.registry@).contains_key(name@) && e@ == (
                    ErrorType::NotFound,
                    "Command "@ + name@ + " not found."@,
                ),
            },
    {
        let k = chars_of(name);
        match find_key(&self.registry, &k) {
            Some(i) => Ok(&self.registry[i].1),
            None => {
                let mut t = chars_of("Command ");
                push_all(&mut t, &k);
                let e = chars_of(" not found.");
                push_all(&mut t, &e);
                Err(Error { error_type: ErrorType::NotFound, message: string_of(&t) })
            },
        }
    }

    /// The arguments a run parses: the raw ones, or those for an empty
    /// command line when there are none and those are set.
    pub fn effective_args(&self) -> (r: &Vec<String>)
        ensures
            *r == if self.raw@.len() == 0 && self.empty_arg@.len() > 0 {
                self.empty_arg
            } else {
                self.raw
            },
    {
        if self.raw.len() == 0 && self.empty_arg.len() > 0 {
            &self.empty_arg
        } else {
            &self.raw
        }
    }
}

/// The farthest end of the process name and the environment strings that
/// follow it: the greatest of `start` and each string's address plus its
/// length.
pub open spec fn area_end(start: int, env: Seq<(usize, usize)>) -> int
    decreases env.len(),
{
    if env.len() == 0 {
        start
    } else {
        let e = area_end(start, env.drop_last());
        let c = env.last().0 + env.last().1;
        if c > e {
            c
        } else {
            e
        }
    }
}

proof fn lemma_area_end_at_least(start: int, env: Seq<(usize, usize)>)
    ensures
        area_end(start, env) >= start,
    decreases env.len(),
{
    if env.len() > 0 {
        lemma_area_end_at_least(start, env.drop_last());
    }
}

impl Cli<()> {
    /// The size of the memory that holds the process name and the
    /// environment after it, from the address of the name and the address
    /// and length of each environment string.
    pub fn cmdline_area(start: usize, env: &Vec<(usize, usize)>) -> (r: usize)
        requires
            forall|i: int| 0 <= i < env@.len() ==> #[trigger] env@[i].0 + env@[i].1 <= usize::MAX,
        ensures
            r == area_end(start as int, env@) - start,
    {
        let mut end = start;
        let mut i: usize = 0;
        while i < env.len()
            invariant
                0 <= i <= env@.len(),
                forall|j: int| 0 <= j < env@.len() ==> #[trigger] env@[j].0 + env@[j].1 <= usize::MAX,
                end == area_end(start as int, env@.take(i as int)),
            decreases env@.len() - i,
        {
            let (p, l) = env[i];
            assert(env@.take(i + 1).drop_last() =~= env@.take(i as int));
            assert(env@[i as int].0 + env@[i as int].1 <= usize::MAX);
            let c = p + l;
            if c > end {
                end = c;
            }
            i = i + 1;
        }
        assert(env@.take(env@.len() as int) =~= env@);
        proof {
            lemma_area_end_at_least(start as int, env@);
        }
        end - start
    }

    /// How many bytes of the new name are written: all of it, but at most
    /// one less than the area, which keeps its final zero.
    pub fn cmdline_copy_len(name_len: usize, area: usize) -> (r: usize)
        requires
            area >= 1,
        ensures
            r == if name_len < area - 1 {
                name_len
            } else {
                (area - 1) as usize
            },
    {
        if name_len < area - 1 {
            name_len
        } else {
            area - 1
        }
    }

    /// The prior arguments with a command's own arguments merged in: its
    /// configuration file wins when it names one, and its quiet, verbose,
    /// trace and development flags are added to the prior ones; whether
    /// root is allowed stays as the prior arguments say.
    pub fn merge_arg_prioritize(
        prior_arg: &ConsoleArguments,
        additional_arg: Option<&ConsoleArguments>,
    ) -> (r: ConsoleArguments)
        ensures
            additional_arg is None ==> config_view(r) == config_view(*prior_arg) && r.quiet
                == prior_arg.quiet && r.verbose == prior_arg.verbose && r.trace == prior_arg.trace
                && r.development == prior_arg.development,
            additional_arg matches Some(a) ==> {
                &&& config_view(r) == if a.config is Some {
                    config_view(*a)
                } else {
                    config_view(*prior_arg)
                }
                &&& r.trace == (a.trace || prior_arg.trace)
                &&& r.quiet == (a.quiet || prior_arg.quiet)
                &&& r.verbose == (a.verbose || prior_arg.verbose)
                &&& r.development == (a.development || prior_arg.development)
            },
            r.allow_root == prior_arg.allow_root,
    {
        let mut console_arg = prior_arg.duplicate();
        if let Some(arg) = additional_arg {
            if let Some(conf) = &arg.config {
                console_arg.config = Some(conf.clone());
            }
            console_arg.trace = arg.trace || console_arg.trace;
            console_arg.quiet = arg.quiet || console_arg.quiet;
            console_arg.verbose = arg.verbose || console_arg.verbose;
            console_arg.development = arg.development || console_arg.development;
        }
        console_arg
    }
}

} // verus!
