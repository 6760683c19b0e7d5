//! The command lines of the build toolchain: scaffolding a project,
//! declaring the runtime's crates as its dependencies, and compiling it.

use vstd::prelude::*;
use crate::text::{views, push_line, cat};

verus! {

/// Where the toolchain and the runtime's crates live.
pub struct CargoInterface {
    pub cargo_path: String,
    pub library_path: String,
}

/// The arguments of each `add` call that declares the runtime's crates for
/// a project, given the directory of those crates.
pub open spec fn dependency_args(lib: Seq<char>) -> Seq<Seq<Seq<char>>> {
    seq![
        seq!["add"@, "num-traits"@],
        seq!["add"@, "serde_json"@],
        seq!["add"@, "serde"@, "--features"@, "derive"@],
        seq!["add"@, "processor_engine"@, "--path"@, lib + "/processor_engine"@],
        seq![
            "add"@,
            "stream_proc_macro"@,
            "--path"@,
            lib + "/processor_engine/src/stream_proc_macro"@,
        ],
        seq!["add"@, "data_model"@, "--path"@, lib + "/data_model"@],
        seq!["add"@, "utils"@, "--path"@, lib + "/utils"@],
    ]
}

pub open spec fn arg_views(v: Seq<Vec<String>>) -> Seq<Seq<Seq<char>>> {
    v.map_values(|a: Vec<String>| views(a@))
}

fn args2(a: &str, b: &str) -> (r: Vec<String>)
    ensures
        views(r@) == seq![a@, b@],
{
    let mut v: Vec<String> = Vec::new();
    push_line(&mut v, String::from_str(a));
    push_line(&mut v, String::from_str(b));
    proof {
        assert(views(v@) =~= seq![a@, b@]);
    }
    v
}

fn args4(a: &str, b: &str, c: &str, d: String) -> (r: Vec<String>)
    ensures
        views(r@) == seq![a@, b@, c@, d@],
{
    let mut v: Vec<String> = Vec::new();
    push_line(&mut v, String::from_str(a));
    push_line(&mut v, String::from_str(b));
    push_line(&mut v, String::from_str(c));
    let ghost dv = d@;
    push_line(&mut v, d);
    proof {
        assert(views(v@) =~= seq![a@, b@, c@, dv]);
    }
    v
}

impl CargoInterface {
    /// The arguments of the calls that declare the runtime's crates as
    /// dependencies of a project, in order; each runs in the project's
    /// directory.
    pub fn dependency_commands(&self) -> (r: Vec<Vec<String>>)
        ensures
            arg_views(r@) == dependency_args(self.library_path@),
    {
        let lib = self.library_path.as_str();
        let mut v: Vec<Vec<String>> = Vec::new();
        v.push(args2("add", "num-traits"));
        v.push(args2("add", "serde_json"));
        v.push(args4("add", "serde", "--features", String::from_str("derive")));
        v.push(args4("add", "processor_engine", "--path", cat(lib, "/processor_engine")));
        v.push(args4("add", "stream_proc_macro", "--path", cat(lib, "/processor_engine/src/stream_proc_macro")));
        v.push(args4("add", "data_model", "--path", cat(lib, "/data_model")));
        v.push(args4("add", "utils", "--path", cat(lib, "/utils")));
        proof {
            assert(arg_views(v@) =~= dependency_args(self.library_path@));
        }
        v
    }

    /// The arguments that create a project skeleton at `path`.
    pub fn new_project_args(&self, path: &str, library: bool) -> (r: Vec<String>)
        ensures
            views(r@) == (if library {
                seq!["new"@, "--lib"@, path@]
            } else {
                seq!["new"@, path@]
            }),
    {
        let mut v: Vec<String> = Vec::new();
        push_line(&mut v, String::from_str("new"));
        if library {
            push_line(&mut v, String::from_str("--lib"));
        }
        push_line(&mut v, String::from_str(path));
        proof {
            if library {
                assert(views(v@) =~= seq!["new"@, "--lib"@, path@]);
            } else {
                assert(views(v@) =~= seq!["new"@, path@]);
            }
        }
        v
    }

    /// The arguments that compile a project, run in its directory.
    pub fn build_args(&self, release: bool) -> (r: Vec<String>)
        ensures
            views(r@) == seq!["build"@, if release { "--release"@ } else { "--debug"@ }],
    {
        if release {
            args2("build", "--release")
        } else {
            args2("build", "--debug")
        }
    }
}

} // verus!
