//! The commands of the command line.
use vstd::prelude::*;

verus! {

#[derive(Debug, Clone, Copy, PartialEq, Eq, Structural)]
pub enum Command {
    /// Install the configured plugins and print the script that loads them.
    Init,
    List,
    Upgrade,
    /// Print the storage root.
    Storage,
    Cleanup,
}

pub struct Options {
    pub command: Command,
}

pub open spec fn command_name(c: Command) -> Seq<char> {
    match c {
        Command::Init => seq!['i', 'n', 'i', 't'],
        Command::List => seq!['l', 'i', 's', 't'],
        Command::Upgrade => seq!['u', 'p', 'g', 'r', 'a', 'd', 'e'],
        Command::Storage => seq!['s', 't', 'o', 'r', 'a', 'g', 'e'],
        Command::Cleanup => seq!['c', 'l', 'e', 'a', 'n', 'u', 'p'],
    }
}

/// The name of the subcommand that selects `c`.
pub fn command_str(c: Command) -> (r: &'static str)
    ensures
        r@ == command_name(c),
{
    match c {
        Command::Init => {
            proof { reveal_strlit("init"); }
            "init"
        },
        Command::List => {
            proof { reveal_strlit("list"); }
            "list"
        },
        Command::Upgrade => {
            proof { reveal_strlit("upgrade"); }
            "upgrade"
        },
        Command::Storage => {
            proof { reveal_strlit("storage"); }
            "storage"
        },
        Command::Cleanup => {
            proof { reveal_strlit("cleanup"); }
            "cleanup"
        },
    }
}

/// The command whose subcommand is called `name`, if any.
pub fn command_for(name: &str) -> (r: Option<Command>)
    ensures
        match r {
            Some(c) => command_name(c) == name@,
            None => forall|c: Command| command_name(c) != name@,
        },
{
    let wanted = String::from_str(name);
    let all: [Command; 5] = [Command::Init, Command::List, Command::Upgrade, Command::Storage, Command::Cleanup];
    let mut i: usize = 0;
    while i < 5
        invariant
            wanted@ == name@,
            all@ == seq![Command::Init, Command::List, Command::Upgrade, Command::Storage, Command::Cleanup],
            forall|j: int| 0 <= j < i ==> command_name(all@[j]) != name@,
        decreases 5 - i,
    {
        let candidate = String::from_str(command_str(all[i]));
        if candidate == wanted {
            return Some(all[i]);
        }
        i = i + 1;
    }
    proof {
        assert forall|c: Command| command_name(c) != name@ by {
            match c {
                Command::Init => assert(command_name(all@[0]) != name@),
                Command::List => assert(command_name(all@[1]) != name@),
                Command::Upgrade => assert(command_name(all@[2]) != name@),
                Command::Storage => assert(command_name(all@[3]) != name@),
                Command::Cleanup => assert(command_name(all@[4]) != name@),
            }
        }
    }
    None
}

} // verus!
