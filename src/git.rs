use vstd::prelude::*;
use crate::cli::MainArgs;

verus! {

/// Where git commands run: in `working_dir` when one is given, else in the
/// current directory.
pub struct GitContext {
    working_dir: Option<String>,
}

/// Why a git command counts as failed: its trimmed standard error.
#[derive(Clone, Debug)]
pub struct GitError {
    pub stderr: String,
}

/// What a finished git command left: its exit code (`None` when a signal
/// ended it) and its trimmed standard output and error.
#[derive(Clone, Debug)]
pub struct GitOutput {
    pub code: Option<i32>,
    pub stdout: String,
    pub stderr: String,
}

impl GitContext {
    pub closed spec fn dir(&self) -> Option<Seq<char>> {
        match self.working_dir {
            Some(d) => Some(d@),
            None => None,
        }
    }

    pub fn new(args: &MainArgs) -> (r: GitContext)
        ensures
            r.dir() == match args.working_dir {
                Some(d) => Some(d@),
                None => None::<Seq<char>>,
            },
    {
        let working_dir = match &args.working_dir {
            Some(d) => Some(d.clone()),
            None => None,
        };
        GitContext { working_dir }
    }

    pub fn working_dir(&self) -> (r: Option<&str>)
        ensures
            match r {
                Some(d) => self.dir() == Some(d@),
                None => self.dir() is None,
            },
    {
        match &self.working_dir {
            Some(d) => Some(d.as_str()),
            None => None,
        }
    }
}

impl GitOutput {
    /// Exit code 0.
    pub fn success(&self) -> (r: bool)
        ensures
            r <==> self.code == Some(0i32),
    {
        match self.code {
            Some(c) => c == 0,
            None => false,
        }
    }

    /// A command whose output is needed: its standard output on success,
    /// else its standard error as the failure.
    pub fn into_stdout(self) -> (r: Result<String, GitError>)
        ensures
            self.code == Some(0i32) ==> r is Ok && r->Ok_0@ == self.stdout@,
            self.code != Some(0i32) ==> r is Err && r->Err_0.stderr@ == self.stderr@,
    {
        if self.success() {
            Ok(self.stdout)
        } else {
            Err(GitError { stderr: self.stderr })
        }
    }

    /// A command that answers a yes/no question: exit code 0 is yes (with its
    /// standard output), 1 is no, anything else a failure.
    pub fn into_answer(self) -> (r: Result<Option<String>, GitError>)
        ensures
            self.code == Some(0i32) ==> r is Ok && r->Ok_0 is Some && r->Ok_0->Some_0@ == self.stdout@,
            self.code == Some(1i32) ==> r is Ok && r->Ok_0 is None,
            self.code != Some(0i32) && self.code != Some(1i32) ==> r is Err && r->Err_0.stderr@
                == self.stderr@,
    {
        match self.code {
            Some(0) => Ok(Some(self.stdout)),
            Some(1) => Ok(None),
            _ => Err(GitError { stderr: self.stderr }),
        }
    }
}

} // verus!
