//! Files that the installer writes out: a name, the full destination path, and the
//! contents.
use vstd::prelude::*;

use crate::text::{join, join_path};

verus! {

/// A text file to write.
#[derive(Debug)]
pub struct FileAsStr {
    pub name: String,
    pub destination: String,
    pub contents: String,
}

/// A binary file to write.
#[derive(Debug)]
pub struct FileAsBytes {
    pub name: String,
    pub destination: String,
    pub contents: Vec<u8>,
}

/// The binary file `name` with `contents`, to be written into the directory
/// `destination`.
pub fn as_bytes(name: String, destination: &str, contents: &[u8]) -> (f: FileAsBytes)
    ensures
        f.name == name,
        f.destination@ == join_path(destination@, name@),
        f.contents@ == contents@,
{
    let full = join(destination, name.as_str());
    let mut bytes: Vec<u8> = Vec::new();
    let mut k: usize = 0;
    while k < contents.len()
        invariant
            k <= contents@.len(),
            bytes@ == contents@.take(k as int),
        decreases contents.len() - k,
    {
        bytes.push(contents[k]);
        k = k + 1;
        proof {
            assert(bytes@ =~= contents@.take(k as int));
        }
    }
    proof {
        assert(contents@.take(contents@.len() as int) =~= contents@);
    }
    FileAsBytes { name, destination: full, contents: bytes }
}

/// The text file `name` with `contents`, to be written into the directory
/// `destination`.
pub fn as_str(name: String, destination: &str, contents: &str) -> (f: FileAsStr)
    ensures
        f.name == name,
        f.destination@ == join_path(destination@, name@),
        f.contents@ == contents@,
{
    let full = join(destination, name.as_str());
    FileAsStr { name, destination: full, contents: contents.to_string() }
}

} // verus!
