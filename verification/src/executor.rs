//! Command execution: the executor's configuration and the decision that
//! turns a finished process into a result.
use std::path::PathBuf;
use std::time::Duration;
use vstd::prelude::*;
use vstd::string::StringExecFns;
use vstd::utf8::{decode_utf8, encode_utf8, valid_utf8};

use crate::error::Error;
use crate::paths::{duration_secs, path_display, path_text, whole_secs};
use crate::text::{decimal, decimal_int, push_decimal, push_decimal_signed};

verus! {

broadcast use vstd::string::group_string_axioms;

/// Represents a command executor: an executable, its arguments and a time
/// limit.
#[derive(Debug, Clone)]
pub struct Executor {
    /// The path to the command executable.
    executable_path: PathBuf,
    /// The timeout for the process.
    timeout: Duration,
    /// The arguments to pass to the command.
    args: Vec<String>,
}

/// Represents the output of a process.
#[derive(Debug, Clone, PartialEq, Eq)]
pub struct ProcessOutput {
    /// The stdout of the process.
    pub stdout: String,
    /// The stderr of the process.
    pub stderr: String,
    /// The exit code of the process.
    pub code: i32,
}

impl Executor {
    /// The executable path.
    pub closed spec fn path_spec(self) -> PathBuf {
        self.executable_path
    }

    /// The arguments.
    pub closed spec fn args_spec(self) -> Seq<String> {
        self.args@
    }

    /// The time limit.
    pub closed spec fn timeout_spec(self) -> Duration {
        self.timeout
    }

    /// Creates a new executor.
    pub fn new(executable_path: PathBuf, args: Vec<String>, timeout: Duration) -> (r: Executor)
        ensures
            r.path_spec() == executable_path,
            r.args_spec() == args@,
            r.timeout_spec() == timeout,
    {
        Executor { executable_path, args, timeout }
    }

    /// Returns the executable path.
    pub fn executable_path(&self) -> (r: &PathBuf)
        ensures
            *r == self.path_spec(),
    {
        &self.executable_path
    }

    /// Returns the arguments.
    pub fn args(&self) -> (r: &[String])
        ensures
            r@ == self.args_spec(),
    {
        self.args.as_slice()
    }

    /// Returns the timeout.
    pub fn timeout(&self) -> (r: Duration)
        ensures
            r == self.timeout_spec(),
    {
        self.timeout
    }
}

impl Executor {
    /// `Executor(path=<path display text>, args=<count>, timeout=<whole seconds>s)`.
    pub open spec fn display(self) -> Seq<char> {
        "Executor(path="@ + path_display(self.path_spec()) + ", args="@ + decimal(self.args_spec().len()) + ", timeout="@
            + decimal(duration_secs(self.timeout_spec()) as nat) + "s)"@
    }

    /// Renders the executor as `Display` does.
    pub fn to_string(&self) -> (r: String)
        ensures
            r@ == self.display(),
    {
        let mut s = String::from_str("Executor(path=");
        let p = path_text(&self.executable_path);
        s.append(p.as_str());
        s.append(", args=");
        push_decimal(&mut s, self.args.len() as u64);
        s.append(", timeout=");
        push_decimal(&mut s, whole_secs(&self.timeout));
        s.append("s)");
        s
    }
}

impl ProcessOutput {
    /// `ProcessOutput(code=<code>, stdout_len=<bytes>, stderr_len=<bytes>)`,
    /// the lengths counted in UTF-8 bytes.
    pub open spec fn display(self) -> Seq<char> {
        "ProcessOutput(code="@ + decimal_int(self.code as int) + ", stdout_len="@ + decimal(
            (encode_utf8(self.stdout@).len() as usize) as nat,
        ) + ", stderr_len="@ + decimal((encode_utf8(self.stderr@).len() as usize) as nat) + ")"@
    }

    /// Renders the output as `Display` does.
    pub fn to_string(&self) -> (r: String)
        ensures
            r@ == self.display(),
    {
        let mut s = String::from_str("ProcessOutput(code=");
        push_decimal_signed(&mut s, self.code as i64);
        s.append(", stdout_len=");
        push_decimal(&mut s, self.stdout.as_str().len() as u64);
        s.append(", stderr_len=");
        push_decimal(&mut s, self.stderr.as_str().len() as u64);
        s.append(")");
        s
    }
}

/// The text that `String::from_utf8_lossy` makes of some bytes: each run of
/// bytes that is not valid UTF-8 becomes U+FFFD.
pub uninterp spec fn utf8_lossy(bytes: Seq<u8>) -> Seq<char>;

/// `String::from_utf8_lossy(bytes).into_owned()`: the lossy decoding, named
/// [`utf8_lossy`]; valid UTF-8 decodes to exactly its characters.
#[verifier::external_body]
fn lossy_string(bytes: &[u8]) -> (r: String)
    ensures
        r@ == utf8_lossy(bytes@),
        valid_utf8(bytes@) ==> r@ == decode_utf8(bytes@),
{
    String::from_utf8_lossy(bytes).into_owned()
}

/// The result of a command that exited, from the bytes it wrote: its output
/// (both streams decoded lossily as UTF-8) when it succeeded, else
/// [`Error::CommandFailed`] with the command, the exit code and stderr. A
/// process killed by a signal has no exit code and reports `-1`.
pub fn process_outcome(command: String, success: bool, exit_code: Option<i32>, stdout: Vec<u8>, stderr: Vec<u8>) -> (r: Result<ProcessOutput, Error>)
    ensures
        ({
            let code = match exit_code {
                Some(c) => c,
                None => -1i32,
            };
            if success {
                r matches Ok(o) && o.stdout@ == utf8_lossy(stdout@) && o.stderr@ == utf8_lossy(stderr@) && o.code == code
                    && (valid_utf8(stdout@) ==> o.stdout@ == decode_utf8(stdout@))
                    && (valid_utf8(stderr@) ==> o.stderr@ == decode_utf8(stderr@))
            } else {
                r matches Err(Error::CommandFailed { command: c, exit_code: e, stderr: t }) && c == command && e == code
                    && t@ == utf8_lossy(stderr@) && (valid_utf8(stderr@) ==> t@ == decode_utf8(stderr@))
            }
        }),
        stdout@.len() == 0 ==> (r matches Ok(o) ==> o.stdout@.len() == 0),
{
    let code = match exit_code {
        Some(c) => c,
        None => -1,
    };
    let out = lossy_string(stdout.as_slice());
    let err = lossy_string(stderr.as_slice());
    if success {
        Ok(ProcessOutput { stdout: out, stderr: err, code })
    } else {
        Err(Error::CommandFailed { command, exit_code: code, stderr: err })
    }
}

/// The output that a long-running process reports when it exits: no stdout
/// (it is streamed elsewhere), the collected stderr, and the exit code or
/// `-1` when killed by a signal.
pub fn streaming_outcome(stderr: String, exit_code: Option<i32>) -> (r: ProcessOutput)
    ensures
        r.stdout@.len() == 0,
        r.stderr == stderr,
        r.code == match exit_code {
            Some(c) => c,
            None => -1i32,
        },
{
    let code = match exit_code {
        Some(c) => c,
        None => -1,
    };
    ProcessOutput { stdout: String::new(), stderr, code }
}

/// The error for a command that exceeded its time limit:
/// `Timeout { operation: "executing command: <path>", duration }`.
pub fn timeout_error(path_text: &str, duration: Duration) -> (r: Error)
    ensures
        r matches Error::Timeout { operation, duration: d } && operation@ == "executing command: "@ + path_text@
            && d == duration,
{
    let mut operation = String::from_str("executing command: ");
    operation.append(path_text);
    Error::Timeout { operation, duration }
}

} // verus!
