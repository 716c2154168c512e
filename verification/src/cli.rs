//! The command-line surface as plain data: the parsed command model and
//! its mapping onto wire requests. Argument parsing itself lives outside
//! the library.

use vstd::prelude::*;

use crate::protocol::Request;

verus! {

/// One parsed command line.
pub struct Cli {
    pub command: Commands,
}

/// The commands the command line offers.
pub enum Commands {
    Schedule { title: String, message: String, interval: u64 },
    List,
    Update { id: u64, title: String, message: String, interval: u64 },
    Remove { id: u64 },
}

/// The wire request a command stands for: `Schedule` asks the daemon to
/// add, the rest carry over unchanged.
pub fn request_of(command: Commands) -> (r: Request)
    ensures
        command matches Commands::Schedule { title, message, interval } ==> (r
            matches Request::Add { title: t, message: m, interval: n } && t@ == title@ && m@
            == message@ && n == interval),
        command is List ==> r is List,
        command matches Commands::Update { id, title, message, interval } ==> (r
            matches Request::Update { id: i, title: t, message: m, interval: n } && i == id && t@
            == title@ && m@ == message@ && n == interval),
        command matches Commands::Remove { id } ==> (r matches Request::Remove { id: i } && i
            == id),
{
    match command {
        Commands::Schedule { title, message, interval } => Request::Add {
            title,
            message,
            interval,
        },
        Commands::List => Request::List,
        Commands::Update { id, title, message, interval } => Request::Update {
            id,
            title,
            message,
            interval,
        },
        Commands::Remove { id } => Request::Remove { id },
    }
}

} // verus!
