//! Templates kept in git repositories: which git command brings a template
//! into the cache, the arguments of each command, and what the outcome of a
//! command means for the caller.
//!
//! Nothing here runs a command. The caller runs `git` with the arguments given
//! here and reports how it ended: `None` when the command could not be run at
//! all, otherwise whether it exited with success.

use vstd::prelude::*;
use vstd::string::StringExecFns;

verus! {

/// A working copy of a template repository.
pub struct Repo {
    location: String,
}

/// A repository could not be cloned.
#[derive(Debug, Clone, PartialEq, Eq)]
pub struct CloneError {
    pub remote: String,
    pub destination: String,
}

/// A directory could not be opened as a repository.
#[derive(Debug, Clone, PartialEq, Eq)]
pub struct OpenError {
    pub location: String,
}

/// A repository could not be refreshed from its remote.
#[derive(Debug, Clone, PartialEq, Eq)]
pub struct PullError {
    pub location: String,
}

/// How a template argument becomes a local directory.
#[derive(Debug, Clone, Copy, PartialEq, Eq, Structural)]
pub enum Fetch {
    /// The argument names an existing local path: it is used as it is.
    Local,
    /// The argument names a repository that the cache does not hold yet.
    Clone,
    /// The argument names a repository that the cache holds already.
    Pull,
}

/// The texts of a list of strings.
pub open spec fn texts(words: Seq<String>) -> Seq<Seq<char>> {
    words.map_values(|word: String| word@)
}

/// Chooses how to fetch a template: a local path wins over the cache, and a
/// cached repository is refreshed rather than cloned again.
pub fn choose_fetch(is_local_path: bool, is_cached: bool) -> (fetch: Fetch)
    ensures
        fetch == if is_local_path {
            Fetch::Local
        } else if is_cached {
            Fetch::Pull
        } else {
            Fetch::Clone
        },
{
    if is_local_path {
        Fetch::Local
    } else if is_cached {
        Fetch::Pull
    } else {
        Fetch::Clone
    }
}

impl View for Repo {
    type V = Seq<char>;

    closed spec fn view(&self) -> Seq<char> {
        self.location@
    }
}

impl Repo {
    /// The arguments of the git command that clones `remote` into `dst`.
    pub fn clone_command(remote: &str, dst: &str) -> (args: Vec<String>)
        ensures
            texts(args@) == seq!["clone"@, remote@, dst@],
    {
        let mut args: Vec<String> = Vec::new();
        args.push("clone".to_owned());
        args.push(remote.to_owned());
        args.push(dst.to_owned());
        args
    }

    /// The arguments of the git command that tells whether `location` is a
    /// repository.
    pub fn open_command(location: &str) -> (args: Vec<String>)
        ensures
            texts(args@) == seq!["-C"@, location@, "status"@],
    {
        let mut args: Vec<String> = Vec::new();
        args.push("-C".to_owned());
        args.push(location.to_owned());
        args.push("status".to_owned());
        args
    }

    /// The arguments of the git command that refreshes this repository.
    pub fn pull_command(&self) -> (args: Vec<String>)
        ensures
            texts(args@) == seq!["-C"@, self@, "pull"@],
    {
        let mut args: Vec<String> = Vec::new();
        args.push("-C".to_owned());
        args.push(self.location.clone());
        args.push("pull".to_owned());
        args
    }

    /// The repository at `dst` after `remote` was cloned there, given the
    /// outcome of the clone command.
    pub fn clone(remote: &str, dst: &str, outcome: Option<bool>) -> (cloned: Result<Repo, CloneError>)
        ensures
            outcome == Some(true) ==> cloned is Ok && cloned->Ok_0@ == dst@,
            outcome != Some(true) ==> cloned is Err && cloned->Err_0.remote@ == remote@
                && cloned->Err_0.destination@ == dst@,
    {
        match outcome {
            Some(true) => Ok(Repo { location: dst.to_owned() }),
            _ => Err(
                CloneError { remote: remote.to_owned(), destination: dst.to_owned() },
            ),
        }
    }

    /// The repository at `location`, given the outcome of the status command
    /// run there.
    pub fn open(location: &str, outcome: Option<bool>) -> (opened: Result<Repo, OpenError>)
        ensures
            outcome == Some(true) ==> opened is Ok && opened->Ok_0@ == location@,
            outcome != Some(true) ==> opened is Err && opened->Err_0.location@ == location@,
    {
        match outcome {
            Some(true) => Ok(Repo { location: location.to_owned() }),
            _ => Err(OpenError { location: location.to_owned() }),
        }
    }

    /// Where the working copy lies.
    pub fn path(&self) -> (location: &str)
        ensures
            location@ == self@,
    {
        self.location.as_str()
    }

    /// Takes note of the outcome of the pull command run in this repository.
    pub fn pull(&mut self, outcome: Option<bool>) -> (pulled: Result<(), PullError>)
        ensures
            final(self)@ == old(self)@,
            outcome == Some(true) ==> pulled is Ok,
            outcome != Some(true) ==> pulled is Err && pulled->Err_0.location@ == old(self)@,
    {
        match outcome {
            Some(true) => Ok(()),
            _ => Err(PullError { location: self.location.clone() }),
        }
    }
}

impl CloneError {
    /// The error in words.
    pub fn message(&self) -> (text: String)
        ensures
            text@ == "Failed to clone repo "@ + self.remote@ + " to "@ + self.destination@,
    {
        let mut text = "Failed to clone repo ".to_owned();
        text.append(self.remote.as_str());
        text.append(" to ");
        text.append(self.destination.as_str());
        text
    }
}

impl OpenError {
    /// The error in words.
    pub fn message(&self) -> (text: String)
        ensures
            text@ == "Failed to open repo at "@ + self.location@,
    {
        let mut text = "Failed to open repo at ".to_owned();
        text.append(self.location.as_str());
        text
    }
}

impl PullError {
    /// The error in words.
    pub fn message(&self) -> (text: String)
        ensures
            text@ == "Failed to pull from remote in repo "@ + self.location@,
    {
        let mut text = "Failed to pull from remote in repo ".to_owned();
        text.append(self.location.as_str());
        text
    }
}

} // verus!
