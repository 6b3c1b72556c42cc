use vstd::prelude::*;

verus! {

/// Raw bytes that a process wrote to one of its output streams.
#[derive(Debug)]
pub struct ProcessOutput {
    pub c: Vec<u8>,
}

impl ProcessOutput {
    pub fn new(c: Vec<u8>) -> (r: ProcessOutput)
        ensures
            r.c@ == c@,
    {
        ProcessOutput { c }
    }

    /// The bytes as written by the process.
    pub fn bytes(&self) -> (r: &Vec<u8>)
        ensures
            r@ == self.c@,
    {
        &self.c
    }
}

impl From<Vec<u8>> for ProcessOutput {
    fn from(src: Vec<u8>) -> (r: ProcessOutput) {
        ProcessOutput { c: src }
    }
}

impl vstd::std_specs::convert::FromSpecImpl<Vec<u8>> for ProcessOutput {
    open spec fn obeys_from_spec() -> bool {
        true
    }

    open spec fn from_spec(v: Vec<u8>) -> ProcessOutput {
        ProcessOutput { c: v }
    }
}

/// Every way in which an operation can fail.
#[derive(Debug)]
pub enum Error {
    /// The process could not be spawned, or its output could not be read.
    Io(String),
    /// The process wrote output that is not valid UTF-8.
    Utf8,
    /// A line of output did not follow the backend's grammar.
    InvalidResponse(String),
    /// The summary line that a listing starts with was absent.
    MissingSummary,
    /// The process ran and exited unsuccessfully: exit code, stderr, stdout.
    Exec(i32, ProcessOutput, ProcessOutput),
    /// No driver is registered for the scheme of a URI.
    SchemeNotFound(String),
    /// A URI body from which its driver could make no machine, such as a
    /// remote body in which no host can be found.
    InvalidUri(String),
}

} // verus!
