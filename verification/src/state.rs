//! The shell's process-wide state: the current working directory and the
//! last exit status.  Only the builtin executor changes it; the driver
//! loop reads it.  The caller attempts the actual directory change and
//! reports the outcome here as a plain boolean.

use vstd::prelude::*;
use vstd::string::StringExecFns;

verus! {

/// The shell-local state threaded through the driver loop.
pub struct ShellState {
    /// The current working directory.
    pub cwd: String,
    /// The exit status of the last command.
    pub last_status: i32,
}

impl ShellState {
    /// A fresh session in the given directory with a clean status.
    pub fn new(initial_cwd: String) -> (s: Self)
        ensures
            s.cwd@ == initial_cwd@,
            s.last_status == 0,
    {
        ShellState { cwd: initial_cwd, last_status: 0 }
    }

    /// Records the outcome of a `cd`: when the directory change
    /// succeeded, the new working directory is kept; when it failed, the
    /// working directory is left unchanged.
    pub fn apply_cd(&mut self, new_cwd: &String, changed: bool)
        ensures
            changed ==> final(self).cwd@ == new_cwd@,
            !changed ==> final(self).cwd@ == old(self).cwd@,
            final(self).last_status == old(self).last_status,
    {
        if changed {
            self.cwd = new_cwd.clone();
        }
    }

    /// Records a finished command's exit status.
    pub fn set_status(&mut self, status: i32)
        ensures
            final(self).cwd@ == old(self).cwd@,
            final(self).last_status == status,
    {
        self.last_status = status;
    }

    /// The line `pwd` writes: the current working directory.
    pub fn pwd_line(&self) -> (r: String)
        ensures
            r@ == self.cwd@,
    {
        self.cwd.clone()
    }
}

} // verus!
