//! Destinations an image can be written to. The writing itself is plain
//! byte I/O (header, drawn buffer, footer, in that order) and lives with
//! the callers that own file handles and standard output; these types name
//! the destinations.
use vstd::prelude::*;

verus! {

/// A file destination, by path.
#[derive(Debug, Clone)]
pub struct FileWriter {
    pub fname: String,
}

impl FileWriter {
    pub fn new(fname: String) -> (w: FileWriter)
        ensures
            w.fname == fname,
    {
        FileWriter { fname }
    }
}

/// The standard-output destination.
#[derive(Debug, Clone)]
pub struct StdoutWriter;

impl StdoutWriter {
    pub fn new() -> (w: StdoutWriter)
        ensures
            w == StdoutWriter,
    {
        StdoutWriter
    }
}

} // verus!
