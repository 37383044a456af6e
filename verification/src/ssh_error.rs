//! Errors of remote command execution.

use vstd::prelude::*;

verus! {

/// Which step of running a remote command failed.
#[derive(Debug, Clone, Copy, PartialEq, Eq, Structural)]
pub enum ErrorCode {
    Exec,
    ReadExec,
}

/// The name of an error code, as its `Display` writes it.
pub open spec fn error_code_name(c: ErrorCode) -> Seq<char> {
    match c {
        ErrorCode::Exec => "Exec"@,
        ErrorCode::ReadExec => "ReadExec"@,
    }
}

impl ErrorCode {
    /// The name of this code.
    pub fn name(&self) -> (r: &'static str)
        ensures
            r@ == error_code_name(*self),
    {
        match self {
            ErrorCode::Exec => "Exec",
            ErrorCode::ReadExec => "ReadExec",
        }
    }
}

/// A failed remote command, with what went wrong.
#[derive(Debug)]
pub struct SSHError {
    pub code: ErrorCode,
    pub msg: String,
}

impl SSHError {
    /// An error with the given code and message.
    pub fn sinp(code: ErrorCode, msg: &str) -> (r: SSHError)
        ensures
            r.code == code,
            r.msg@ == msg@,
    {
        SSHError { code, msg: msg.to_owned() }
    }

    /// The text shown for this error: `Failed: ` and its message.
    pub fn text(&self) -> (r: String)
        ensures
            r@ == "Failed: "@ + self.msg@,
    {
        let mut r = String::new();
        r.append("Failed: ");
        r.append(self.msg.as_str());
        r
    }
}

} // verus!
