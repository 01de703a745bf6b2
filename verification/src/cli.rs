//! The command-line surface: which command was asked for.
//!
//! Argument parsing itself happens outside the library; the parsed
//! command arrives here as a plain value, and an absent command defaults
//! to starting a chat with no persona named.

use vstd::prelude::*;

verus! {

/// The mathematical value of a [`Commands`].
pub enum CommandView {
    Chat { agent: Option<Seq<char>> },
    ListAgents,
}

/// One of the two commands: start an interactive chat, optionally naming
/// a persona, or list the available personas.
#[derive(Debug)]
pub enum Commands {
    Chat { agent: Option<String> },
    ListAgents,
}

impl View for Commands {
    type V = CommandView;

    closed spec fn view(&self) -> CommandView {
        match self {
            Commands::Chat { agent: Some(a) } => CommandView::Chat { agent: Some(a@) },
            Commands::Chat { agent: None } => CommandView::Chat { agent: None },
            Commands::ListAgents => CommandView::ListAgents,
        }
    }
}

impl Default for Commands {
    /// A chat with no persona named.
    fn default() -> (c: Commands)
        ensures
            c@ == (CommandView::Chat { agent: None::<Seq<char>> }),
    {
        Commands::Chat { agent: None }
    }
}

/// The parsed command line.
#[derive(Debug)]
pub struct Cli {
    command: Option<Commands>,
}

impl View for Cli {
    type V = Option<CommandView>;

    closed spec fn view(&self) -> Option<CommandView> {
        match &self.command {
            Some(c) => Some(c@),
            None => None,
        }
    }
}

impl Cli {
    /// Wraps an optionally given command.
    pub fn new(command: Option<Commands>) -> (cli: Cli)
        ensures
            command matches Some(c) ==> cli@ == Some(c@),
            command is None ==> cli@ is None,
    {
        Cli { command }
    }

    /// The command to run: the given one, or the default chat.
    pub fn command(&self) -> (c: Commands)
        ensures
            self@ matches Some(v) ==> c@ == v,
            self@ is None ==> c@ == (CommandView::Chat { agent: None::<Seq<char>> }),
    {
        match &self.command {
            Some(Commands::Chat { agent: Some(a) }) => Commands::Chat {
                agent: Some(a.clone()),
            },
            Some(Commands::Chat { agent: None }) => Commands::Chat { agent: None },
            Some(Commands::ListAgents) => Commands::ListAgents,
            None => Commands::default(),
        }
    }
}

} // verus!
