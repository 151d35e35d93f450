//! What a compilation works on: the names of the file to read and of the
//! file to write.

use vstd::prelude::*;
use crate::text::{replace_all, replaced_in};

verus! {

/// The last component of a path, as `Path::file_name` of the standard
/// library gives it; `None` where the path ends in `..` or names no
/// file.
pub uninterp spec fn file_name_of(path: Seq<char>) -> Option<Seq<char>>;

/// The path without its last component, as `Path::parent` of the
/// standard library gives it; `None` where the path ends in a root or
/// is empty.
pub uninterp spec fn parent_of(path: Seq<char>) -> Option<Seq<char>>;

/// What an optional text says.
pub open spec fn text_view(text: Option<String>) -> Option<Seq<char>> {
    match text {
        Some(t) => Some(t@),
        None => None,
    }
}

/// The last component of a path: `Path::file_name` of the standard
/// library. The contract only names the result.
#[verifier::external_body]
fn file_name(path: &str) -> (name: Option<String>)
    ensures
        text_view(name) == file_name_of(path@),
{
    std::path::Path::new(path).file_name()?.to_str().map(|s| s.to_string())
}

/// The path without its last component: `Path::parent` of the standard
/// library. The contract only names the result.
#[verifier::external_body]
fn parent(path: &str) -> (dir: Option<String>)
    ensures
        text_view(dir) == parent_of(path@),
{
    std::path::Path::new(path).parent()?.to_str().map(|s| s.to_string())
}

/// What one compilation works on: the file to compile, the directory
/// that it lies in, the file to write, and the names met so far.
#[derive(Debug, PartialEq, Eq)]
pub struct Compiler {
    pub target_name: String,
    pub output_dir: String,
    pub output_name: String,
    pub declared_variables: Vec<String>,
    pub declared_functions: Vec<String>,
    pub used_variables: Vec<String>,
    pub used_functions: Vec<String>,
}

/// The compiler for a file with the given name in the given directory.
pub fn compiler_for(target_name: String, output_dir: String) -> (c: Compiler)
    ensures
        c.target_name == target_name,
        c.output_dir == output_dir,
        c.output_name@ == replaced_in(target_name@, ".rss"@, ".ll"@),
        c.declared_variables@.len() == 0,
        c.declared_functions@.len() == 0,
        c.used_variables@.len() == 0,
        c.used_functions@.len() == 0,
{
    let output_name = replace_all(target_name.as_str(), ".rss", ".ll");
    Compiler {
        target_name,
        output_dir,
        output_name,
        declared_variables: Vec::new(),
        declared_functions: Vec::new(),
        used_variables: Vec::new(),
        used_functions: Vec::new(),
    }
}

impl Compiler {
    /// A compiler for the file at `target_path`: its target is the last
    /// component of the path, its directory the rest, and its output has
    /// the name of the target with `.ll` for `.rss`. `None` where the
    /// path has no last component or no rest.
    pub fn new(target_path: &str) -> (r: Option<Compiler>)
        ensures
            r is Some <==> file_name_of(target_path@) is Some && parent_of(target_path@) is Some,
            r matches Some(c) ==> {
                &&& Some(c.target_name@) == file_name_of(target_path@)
                &&& Some(c.output_dir@) == parent_of(target_path@)
                &&& c.output_name@ == replaced_in(c.target_name@, ".rss"@, ".ll"@)
                &&& c.declared_variables@.len() == 0
                &&& c.declared_functions@.len() == 0
                &&& c.used_variables@.len() == 0
                &&& c.used_functions@.len() == 0
            },
    {
        let target_name = match file_name(target_path) {
            Some(n) => n,
            None => {
                return None;
            },
        };
        let output_dir = match parent(target_path) {
            Some(d) => d,
            None => {
                return None;
            },
        };
        Some(compiler_for(target_name, output_dir))
    }
}

} // verus!
