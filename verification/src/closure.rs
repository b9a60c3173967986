use vstd::prelude::*;
use vstd::string::StringExecFns;

verus! {

/// Calls `f` on `arg`.
pub fn call(arg: u64, f: impl Fn(u64) -> u64) -> (r: u64)
    requires
        f.requires((arg,)),
    ensures
        f.ensures((arg,), r),
{
    f(arg)
}

/// Calls the mutable closure `f_mut` on `arg`.
pub fn call_mut(arg: u64, mut f_mut: impl FnMut(u64) -> u64) -> (r: u64)
    requires
        f_mut.requires((arg,)),
    ensures
        f_mut.ensures((arg,), r),
{
    f_mut(arg)
}

/// Calls the one-shot closure `f_once` on `arg`.
pub fn call_once(arg: u64, f_once: impl FnOnce(u64) -> u64) -> (r: u64)
    requires
        f_once.requires((arg,)),
    ensures
        f_once.ensures((arg,), r),
{
    f_once(arg)
}

/// Something that runs commands.
pub trait Executor {
    /// `self` can run `cmd`.
    spec fn accepts(&self, cmd: &str) -> bool;

    /// `r` is an outcome of running `cmd` with `self`.
    spec fn outcome(&self, cmd: &str, r: Result<String, &'static str>) -> bool;

    /// Runs `cmd`.
    fn execute(&self, cmd: &str) -> (r: Result<String, &'static str>)
        requires
            self.accepts(cmd),
        ensures
            self.outcome(cmd, r),
    ;
}

/// An executor that reports the command and its environment instead of running it.
pub struct BashExecutor {
    pub env: String,
}

/// The report of the bash executor on `cmd` in the environment `env`.
pub open spec fn bash_report(env: Seq<char>, cmd: Seq<char>) -> Seq<char> {
    "noop struct execute: env: "@ + env + ", cmd: "@ + cmd
}

impl Executor for BashExecutor {
    open spec fn accepts(&self, cmd: &str) -> bool {
        true
    }

    open spec fn outcome(&self, cmd: &str, r: Result<String, &'static str>) -> bool {
        r is Ok && r->Ok_0@ == bash_report(self.env@, cmd@)
    }

    fn execute(&self, cmd: &str) -> (r: Result<String, &'static str>) {
        let mut out = String::from_str("noop struct execute: env: ");
        out.append(self.env.as_str());
        out.append(", cmd: ");
        out.append(cmd);
        Ok(out)
    }
}

impl<T> Executor for T where T: Fn(&str) -> Result<String, &'static str> {
    open spec fn accepts(&self, cmd: &str) -> bool {
        self.requires((cmd,))
    }

    open spec fn outcome(&self, cmd: &str, r: Result<String, &'static str>) -> bool {
        self.ensures((cmd,), r)
    }

    fn execute(&self, cmd: &str) -> (r: Result<String, &'static str>) {
        self(cmd)
    }
}

/// Runs `cmd` with the executor `exec`.
pub fn execute(cmd: &str, exec: impl Executor) -> (r: Result<String, &'static str>)
    requires
        exec.accepts(cmd),
    ensures
        exec.outcome(cmd, r),
{
    exec.execute(cmd)
}

/// Runs `cmd` with the function `exec`; its contract is stated over the function's own, so that
/// any function can be passed.
pub fn execute_with<F>(cmd: &str, exec: F) -> (r: Result<String, &'static str>) where
    F: Fn(&str) -> Result<String, &'static str>,
    requires
        exec.requires((cmd,)),
    ensures
        exec.ensures((cmd,), r),
{
    execute(cmd, exec)
}

} // verus!
