//! The code-generation-compiler backend.
//!
//! Invoking the external compiler is process I/O and lives outside this
//! library; here stand the parts of the backend that only compute: the
//! command line handed to the compiler and the list of artifact
//! directories removed by a clean.

use crate::backends::{App, Outcome};
use vstd::prelude::*;
use vstd::string::*;

verus! {

/// Backend state for the code-generation compiler: the application it
/// was created for.
pub struct LFC {
    target: App,
}

impl View for LFC {
    type V = crate::backends::AppView;

    /// The view of the application this backend instance was created for.
    closed spec fn view(&self) -> crate::backends::AppView {
        self.target@
    }
}

impl LFC {
    /// Create a backend instance for one application.
    pub fn from_target(target: &App) -> (r: Self)
        ensures
            r@ == target@,
    {
        LFC { target: target.clone() }
    }

    /// The application this backend instance was created for.
    pub fn target(&self) -> (t: &App)
        ensures
            t@ == self@,
    {
        &self.target
    }

    /// Refreshing dependencies is a no-op for this backend.
    pub fn update(&self) -> (r: Outcome)
        ensures
            r@ is Success,
    {
        Outcome::Success
    }

    /// The arguments handed to the code-generation compiler to build
    /// this backend's application: generate into the working directory,
    /// from the application's main entry point under `src`.
    pub fn build_command_args(&self) -> (r: Vec<String>)
        ensures
            r@.len() == 3,
            r@[0]@ == "--output"@,
            r@[1]@ == "./"@,
            r@[2]@ == "./src/"@ + self@.main_reactor + ".lf"@,
    {
        let mut source = String::from_str("./src/");
        source.append(self.target.main_reactor.as_str());
        source.append(".lf");
        let mut args: Vec<String> = Vec::new();
        args.push(String::from_str("--output"));
        args.push(String::from_str("./"));
        args.push(source);
        args
    }

    /// The directories, relative to the working directory, that hold
    /// this backend's build artifacts; a clean removes exactly these.
    pub fn artifact_dirs() -> (r: Vec<String>)
        ensures
            r@.len() == 6,
            r@[0]@ == "./bin"@,
            r@[1]@ == "./include"@,
            r@[2]@ == "./src-gen"@,
            r@[3]@ == "./lib64"@,
            r@[4]@ == "./share"@,
            r@[5]@ == "./build"@,
    {
        let mut dirs: Vec<String> = Vec::new();
        dirs.push(String::from_str("./bin"));
        dirs.push(String::from_str("./include"));
        dirs.push(String::from_str("./src-gen"));
        dirs.push(String::from_str("./lib64"));
        dirs.push(String::from_str("./share"));
        dirs.push(String::from_str("./build"));
        dirs
    }
}

} // verus!
