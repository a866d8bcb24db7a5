//! State of the host shell's display panel.
//!
//! The rendering loop, the audio channel and the plotting widgets live in the
//! unverified shell around this library; only the panel's own state is kept
//! here.
use vstd::prelude::*;
use vstd::string::StringExecFns;

verus! {

/// The demo panel's state: a greeting name and an age counter.
pub struct MyApp {
    pub name: String,
    pub age: u32,
}

impl MyApp {
    /// The panel's initial state.
    pub fn new() -> (r: MyApp)
        ensures
            r.name@ == "Bruh"@,
            r.age == 11,
    {
        MyApp { name: String::from_str("Bruh"), age: 11 }
    }
}

} // verus!
