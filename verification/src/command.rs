//! A command line that runs a timer's command as another user.

use crate::text::{copy_text, texts};
use vstd::prelude::*;

verus! {

/// A program with its arguments, and the user it is run as.
#[derive(Debug)]
pub struct Command {
    /// The program to start.
    pub bin: String,
    /// Its arguments.
    pub args: Vec<String>,
    /// The user that the command is run as.
    pub user: String,
}

impl Command {
    /// The command that runs the words of `cmd` as `user`: `sudo`, with
    /// `-u`, the user and then the words as its arguments.
    pub fn new(cmd: Vec<String>, user: String) -> (command: Command)
        ensures
            command.bin@ == "/usr/bin/sudo"@,
            command.user@ == user@,
            texts(command.args@) == seq!["-u"@, user@] + texts(cmd@),
    {
        let mut args: Vec<String> = Vec::new();
        args.push(copy_text("-u"));
        args.push(user.clone());
        assert(texts(args@) =~= seq!["-u"@, user@]);
        let mut i: usize = 0;
        while i < cmd.len()
            invariant
                i <= cmd.len(),
                texts(args@) == seq!["-u"@, user@] + texts(cmd@).take(i as int),
            decreases cmd.len() - i,
        {
            let ghost before = texts(args@);
            args.push(cmd[i].clone());
            assert(texts(args@) =~= before.push(cmd@[i as int]@));
            assert(texts(cmd@).take(i + 1) =~= texts(cmd@).take(i as int).push(cmd@[i as int]@));
            i += 1;
        }
        assert(texts(cmd@).take(cmd.len() as int) =~= texts(cmd@));
        Command { bin: copy_text("/usr/bin/sudo"), args, user }
    }
}

} // verus!
