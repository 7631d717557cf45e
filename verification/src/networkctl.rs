//! The network manager's control program, `networkctl`.

use crate::error::IoFailure;
use crate::text::{fields, split_fields, texts};
use vstd::prelude::*;
use vstd::string::*;

verus! {

/// The name of the control program.
pub open spec fn program_name() -> Seq<char> {
    "networkctl"@
}

/// The argument that makes the control program reload the configuration.
pub open spec fn reload_argument() -> Seq<char> {
    "reload"@
}

/// The name of the control program, to look for on the search path.
pub fn networkctl_name() -> (name: String)
    ensures
        name@ == program_name(),
{
    String::from_str("networkctl")
}

/// The directories of a search path, in the order in which they are searched:
/// the fields of `path` between its colons.
pub fn search_dirs(path: &str) -> (dirs: Vec<String>)
    ensures
        texts(dirs@) == fields(path@, ':'),
{
    split_fields(path, ':')
}

/// A program to start, with its arguments.
#[derive(Debug, PartialEq, Eq)]
pub struct Command {
    pub program: String,
    pub args: Vec<String>,
}

/// What a `Command` holds, as mathematical values.
pub struct CommandView {
    pub program: Seq<char>,
    pub args: Seq<Seq<char>>,
}

impl View for Command {
    type V = CommandView;

    open spec fn view(&self) -> CommandView {
        CommandView { program: self.program@, args: texts(self.args@) }
    }
}

/// The control program, found once and used from then on, whatever the
/// search path holds later.
#[derive(Debug, PartialEq, Eq)]
pub struct Networkctl {
    bin: String,
}

impl Networkctl {
    /// The path of the control program.
    pub closed spec fn bin(&self) -> Seq<char> {
        self.bin@
    }

    /// The control program at `bin`, where the caller has found it.
    pub fn new(bin: String) -> (ctl: Networkctl)
        ensures
            ctl.bin() == bin@,
    {
        Networkctl { bin }
    }

    /// The command that reloads the network manager's configuration.
    pub fn reload(&self) -> (command: Command)
        ensures
            command@ == (CommandView { program: self.bin(), args: seq![reload_argument()] }),
    {
        let mut args: Vec<String> = Vec::new();
        args.push(String::from_str("reload"));
        assert(texts(args@) =~= seq![reload_argument()]);
        Command { program: self.bin.clone(), args }
    }

    /// What a reload comes to, given how starting the command went: with the
    /// exit code of the program where it ran, with the failure where it could
    /// not be started. A program that ran has reloaded, whatever its exit
    /// code says.
    pub fn reloaded(started: Result<Option<i32>, IoFailure>) -> (outcome: Result<(), IoFailure>)
        ensures
            started is Ok ==> outcome is Ok,
            started matches Err(failure) ==> outcome == Err::<(), IoFailure>(failure),
    {
        match started {
            Ok(_) => Ok(()),
            Err(failure) => Err(failure),
        }
    }
}

} // verus!
