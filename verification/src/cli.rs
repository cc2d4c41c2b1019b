//! The commands as the user names them.

use crate::actions::{init, link, list, text_of, unlink, RequestModel, Step, StepModel};
use crate::error::DotmanError;
use vstd::prelude::*;

verus! {

/// What the user asked for on the command line.
#[derive(Debug)]
pub struct Cli {
    pub command: Commands,
}

/// The five commands.
#[derive(Debug)]
pub enum Commands {
    /// Create a repository, in `dir` if it is given.
    Init { dir: Option<String> },
    /// Move the file at `path` into the repository and link it.
    Add { path: String },
    /// Link every managed file, over what is in the way if `force` is set.
    Link { force: bool },
    /// Remove the symbolic link of every managed file.
    Unlink,
    /// Tell which files are managed.
    List,
}

/// A command as a mathematical value.
pub enum CommandsModel {
    Init { dir: Option<Seq<char>> },
    Add { path: Seq<char> },
    Link { force: bool },
    Unlink,
    List,
}

impl View for Commands {
    type V = CommandsModel;

    open spec fn view(&self) -> CommandsModel {
        match self {
            Commands::Init { dir } => CommandsModel::Init { dir: text_of(*dir) },
            Commands::Add { path } => CommandsModel::Add { path: path@ },
            Commands::Link { force } => CommandsModel::Link { force: *force },
            Commands::Unlink => CommandsModel::Unlink,
            Commands::List => CommandsModel::List,
        }
    }
}

impl CommandsModel {
    /// The first step of the command, with the home directory known.
    pub open spec fn begin(self, home: Seq<char>) -> StepModel {
        match self {
            CommandsModel::Init { dir } => StepModel::init(home, dir),
            CommandsModel::Add { path } => StepModel::open(RequestModel::Add { path }, home),
            CommandsModel::Link { force } => StepModel::open(RequestModel::Link { force }, home),
            CommandsModel::Unlink => StepModel::open(RequestModel::Unlink, home),
            CommandsModel::List => StepModel::open(RequestModel::List, home),
        }
    }
}

impl Cli {
    /// Begins the command that the user asked for. Every command needs the home
    /// directory, and fails at once without it.
    pub fn start(self) -> (step: Step)
        ensures
            step@ == StepModel::fail(DotmanError::HomeDirectoryUnavailable) || exists|home: Seq<char>|
                step@ == self.command@.begin(home),
    {
        let ghost command = self.command@;
        let ghost failed = StepModel::fail(DotmanError::HomeDirectoryUnavailable);
        match self.command {
            Commands::Init { dir } => {
                let ghost dir_text = text_of(dir);
                let step = init(dir);
                proof {
                    if step@ != failed {
                        let home = choose|home: Seq<char>| step@ == StepModel::init(home, dir_text);
                        assert(step@ == command.begin(home));
                    }
                }
                step
            },
            Commands::Add { path } => {
                let ghost request = RequestModel::Add { path: path@ };
                let step = crate::actions::add(path);
                proof {
                    if step@ != failed {
                        let home = choose|home: Seq<char>| step@ == StepModel::open(request, home);
                        assert(step@ == command.begin(home));
                    }
                }
                step
            },
            Commands::Link { force } => {
                let step = link(force);
                proof {
                    if step@ != failed {
                        let home = choose|home: Seq<char>|
                            step@ == StepModel::open(RequestModel::Link { force }, home);
                        assert(step@ == command.begin(home));
                    }
                }
                step
            },
            Commands::Unlink => {
                let step = unlink();
                proof {
                    if step@ != failed {
                        let home = choose|home: Seq<char>| step@ == StepModel::open(RequestModel::Unlink, home);
                        assert(step@ == command.begin(home));
                    }
                }
                step
            },
            Commands::List => {
                let step = list();
                proof {
                    if step@ != failed {
                        let home = choose|home: Seq<char>| step@ == StepModel::open(RequestModel::List, home);
                        assert(step@ == command.begin(home));
                    }
                }
                step
            },
        }
    }
}

} // verus!
