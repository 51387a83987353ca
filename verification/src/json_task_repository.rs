//! The plain-file task repository of the stand-alone service. A save goes to a
//! temporary file in the same directory that then replaces the target, so that
//! readers only ever see complete JSON.

use vstd::prelude::*;

use crate::text::{push_hex, push_str_chars, spec_hex, string_from_chars};

verus! {

/// The task records in one JSON file.
#[derive(Debug)]
pub struct JsonTaskRepository {
    path: String,
}

impl JsonTaskRepository {
    /// A repository stored at the given path.
    pub fn new(path: String) -> (r: Self)
        ensures
            r.path()@ == path@,
    {
        JsonTaskRepository { path }
    }

    /// The path of the task file.
    pub closed spec fn path(&self) -> String {
        self.path
    }

    /// The path of the task file.
    pub fn file_path(&self) -> (r: &str)
        ensures
            r@ == self.path()@,
    {
        self.path.as_str()
    }
}

/// The name of the temporary file a save writes first: `.tasks-<hex>.tmp` with
/// a random number, so that concurrent saves never share one.
pub fn temp_file_name(random: u64) -> (r: String)
    ensures
        r@ == ".tasks-"@ + spec_hex(random as nat) + ".tmp"@,
{
    let mut out: Vec<char> = Vec::new();
    push_str_chars(&mut out, ".tasks-");
    push_hex(random, &mut out);
    push_str_chars(&mut out, ".tmp");
    string_from_chars(out.as_slice())
}

} // verus!
