//! The command-line surface: the resolved invocation the program hands
//! to the library, and its dispatch to the command implementations.
//! Argument parsing itself stays outside; these are the plain values it
//! produces.

use vstd::prelude::*;

use crate::ws::ClientError;

verus! {

/// A resolved invocation: the chosen subcommand and the output format.
pub struct Cli {
    pub command: Commands,
    pub output: OutputFormat,
}

/// The subcommands of the one-shot command line: spawn a mob at
/// coordinates, teleport, reload the configuration, or regenerate the
/// map with an optional seed.
pub enum Commands {
    Spawn { mob: Vec<u8>, x: i32, y: i32 },
    Tp { x: i32, y: i32 },
    Reload,
    RegenMap { seed: Option<i32> },
}

/// Output format (text or json).
#[derive(Clone, Copy, PartialEq, Eq, Structural, Debug)]
pub enum OutputFormat {
    Text,
    Json,
}

impl Cli {
    /// What the chosen subcommand reports, in the chosen format: the
    /// output of its command implementation, with spawn's local name
    /// validation applied.
    pub fn run(&self) -> (r: Result<Vec<u8>, ClientError>)
        ensures
            match self.command {
                Commands::Spawn { ref mob, x, y } => {
                    &&& (r is Ok <==> !crate::dispatch::is_blank(mob@))
                    &&& (r is Ok ==> r->Ok_0@ == crate::commands::spawn::spawn_output(
                        mob@,
                        x,
                        y,
                        self.output,
                    ))
                },
                Commands::Tp { x, y } => r is Ok && r->Ok_0@
                    == crate::commands::tp::tp_output(x, y, self.output),
                Commands::Reload => r is Ok && r->Ok_0@ == crate::commands::reload::reload_output(
                    self.output,
                ),
                Commands::RegenMap { seed } => r is Ok && r->Ok_0@
                    == crate::commands::regen_map::regen_map_output(seed, self.output),
            },
    {
        match &self.command {
            Commands::Spawn { mob, x, y } => crate::commands::spawn::execute(
                mob.as_slice(),
                *x,
                *y,
                &self.output,
            ),
            Commands::Tp { x, y } => crate::commands::tp::execute(*x, *y, &self.output),
            Commands::Reload => crate::commands::reload::execute(&self.output),
            Commands::RegenMap { seed } => crate::commands::regen_map::execute(
                *seed,
                &self.output,
            ),
        }
    }
}

} // verus!
