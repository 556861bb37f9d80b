//! The command line as the library sees it, and the command it asks for.
use vstd::prelude::*;
use crate::git::command::{join_args, joined};
use crate::models::opt_view;
use crate::text::{chars_of, string_of, strings};

verus! {

/// The parsed command line: global flags and an optional subcommand.
pub struct Cli {
    pub json: bool,
    pub verbose: bool,
    pub command: Option<Commands>,
}

/// The subcommands.
pub enum Commands {
    List,
    Add { name: String, base: Option<String>, track: Option<String>, path: Option<String> },
    Switch { target: Vec<String> },
    Remove { target: Vec<String>, force: bool },
    Prune { yes: bool },
    Path { target: Vec<String> },
}

/// The output and tracing choices shared by every command.
pub struct Context {
    pub json: bool,
    pub verbose: bool,
}

/// The command to run, with multi-word queries joined.
pub enum Invocation {
    List,
    Add { name: String, base: Option<String>, track: Option<String>, path: Option<String> },
    Switch { query: String },
    Remove { query: String, force: bool },
    Prune { yes: bool },
    Path { query: String },
}

/// The words of a query joined with single spaces.
fn query_of(target: &Vec<String>) -> (r: String)
    ensures
        r@ == joined(strings(target@)),
{
    string_of(&join_args(target))
}

fn copy_opt(o: &Option<String>) -> (r: Option<String>)
    ensures
        opt_view(r) == opt_view(*o),
{
    match o {
        Some(s) => Some(string_of(&chars_of(s.as_str()))),
        None => None,
    }
}

/// The command that the command line asks for: `list` when none is given;
/// the words of a target are joined with spaces into one query.
pub fn dispatch(cli: &Cli) -> (r: Invocation)
    ensures
        match cli.command {
            None => r is List,
            Some(Commands::List) => r is List,
            Some(Commands::Add { name, base, track, path }) => r matches Invocation::Add {
                name: n,
                base: b,
                track: t,
                path: p,
            } && n@ == name@ && opt_view(b) == opt_view(base) && opt_view(t) == opt_view(track)
                && opt_view(p) == opt_view(path),
            Some(Commands::Switch { target }) => r matches Invocation::Switch { query } && query@
                == joined(strings(target@)),
            Some(Commands::Remove { target, force }) => r matches Invocation::Remove {
                query,
                force: f,
            } && query@ == joined(strings(target@)) && f == force,
            Some(Commands::Prune { yes }) => r == Invocation::Prune { yes },
            Some(Commands::Path { target }) => r matches Invocation::Path { query } && query@
                == joined(strings(target@)),
        },
{
    match &cli.command {
        None => Invocation::List,
        Some(Commands::List) => Invocation::List,
        Some(Commands::Add { name, base, track, path }) => Invocation::Add {
            name: string_of(&chars_of(name.as_str())),
            base: copy_opt(base),
            track: copy_opt(track),
            path: copy_opt(path),
        },
        Some(Commands::Switch { target }) => Invocation::Switch { query: query_of(target) },
        Some(Commands::Remove { target, force }) => Invocation::Remove {
            query: query_of(target),
            force: *force,
        },
        Some(Commands::Prune { yes }) => Invocation::Prune { yes: *yes },
        Some(Commands::Path { target }) => Invocation::Path { query: query_of(target) },
    }
}

/// The output and tracing choices of the command line.
pub fn context(cli: &Cli) -> (r: Context)
    ensures
        r.json == cli.json,
        r.verbose == cli.verbose,
{
    Context { json: cli.json, verbose: cli.verbose }
}

} // verus!
