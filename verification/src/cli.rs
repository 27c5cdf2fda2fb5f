//! Parsing of the command line into a command, mirroring the subcommand
//! surface: `establish`, `create`, `remove`, `edit`, `export`, `search`,
//! `rss`; anything else, or a missing argument, asks for the help text.

use vstd::prelude::*;

verus! {

/// One parsed invocation.
#[derive(Debug)]
pub enum Command {
    Help,
    Establish,
    Rss,
    Create(String),
    Remove(String),
    Edit(String),
    Export(String),
    Search(String),
}

/// Mathematical model of a `Command`.
#[verifier::ext_equal]
pub ghost enum CommandV {
    Help,
    Establish,
    Rss,
    Create(Seq<char>),
    Remove(Seq<char>),
    Edit(Seq<char>),
    Export(Seq<char>),
    Search(Seq<char>),
}

impl DeepView for Command {
    type V = CommandV;

    open spec fn deep_view(&self) -> CommandV {
        match self {
            Command::Help => CommandV::Help,
            Command::Establish => CommandV::Establish,
            Command::Rss => CommandV::Rss,
            Command::Create(a) => CommandV::Create(a@),
            Command::Remove(a) => CommandV::Remove(a@),
            Command::Edit(a) => CommandV::Edit(a@),
            Command::Export(a) => CommandV::Export(a@),
            Command::Search(a) => CommandV::Search(a@),
        }
    }
}

/// What an argument list parses to.  The first argument is the program
/// name; a command that needs an argument and lacks one asks for help.
pub open spec fn parse_command_spec(args: Seq<Seq<char>>) -> CommandV {
    if args.len() < 2 {
        CommandV::Help
    } else {
        let c = args[1];
        if c == "establish"@ {
            CommandV::Establish
        } else if c == "rss"@ {
            CommandV::Rss
        } else if c == "create"@ || c == "remove"@ || c == "edit"@ || c == "export"@ || c
            == "search"@ {
            if args.len() < 3 {
                CommandV::Help
            } else if c == "create"@ {
                CommandV::Create(args[2])
            } else if c == "remove"@ {
                CommandV::Remove(args[2])
            } else if c == "edit"@ {
                CommandV::Edit(args[2])
            } else if c == "export"@ {
                CommandV::Export(args[2])
            } else {
                CommandV::Search(args[2])
            }
        } else {
            CommandV::Help
        }
    }
}

/// Parses the argument list into the invoked command.
pub fn parse_command(args: &Vec<String>) -> (r: Command)
    ensures
        r.deep_view() == parse_command_spec(args.deep_view()),
{
    if args.len() < 2 {
        return Command::Help;
    }
    let c = &args[1];
    if *c == String::from_str("establish") {
        Command::Establish
    } else if *c == String::from_str("rss") {
        Command::Rss
    } else if *c == String::from_str("create") {
        if args.len() < 3 {
            Command::Help
        } else {
            Command::Create(args[2].clone())
        }
    } else if *c == String::from_str("remove") {
        if args.len() < 3 {
            Command::Help
        } else {
            Command::Remove(args[2].clone())
        }
    } else if *c == String::from_str("edit") {
        if args.len() < 3 {
            Command::Help
        } else {
            Command::Edit(args[2].clone())
        }
    } else if *c == String::from_str("export") {
        if args.len() < 3 {
            Command::Help
        } else {
            Command::Export(args[2].clone())
        }
    } else if *c == String::from_str("search") {
        if args.len() < 3 {
            Command::Help
        } else {
            Command::Search(args[2].clone())
        }
    } else {
        Command::Help
    }
}

} // verus!
