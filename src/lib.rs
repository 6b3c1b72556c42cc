//! Uniform control of virtual machines whose hypervisors only offer a
//! command-line interface.
pub mod command;
pub mod error;
pub mod registry;
pub mod remote;
pub mod text;
pub mod uri;
pub mod virtual_box;
pub mod vmware;

use vstd::prelude::*;
use crate::error::Error;

verus! {

/// Enumerates the running machines of one backend, or names one by its path.
pub trait Driver {
    type Machine: Machine;

    fn list_running(&self) -> Result<Vec<Self::Machine>, Error>;

    /// `r` is an answer that naming the machine at `path` may give. A
    /// driver that states nothing of its answers keeps this default, which
    /// allows any.
    open spec fn found(&self, path: Seq<char>, r: Result<Self::Machine, Error>) -> bool {
        true
    }

    fn from_path(&self, path: &str) -> (r: Result<Self::Machine, Error>)
        ensures
            self.found(path@, r),
    ;
}

/// One virtual machine and the operations on it.
pub trait Machine {
    /// `n` is a name that the machine may give. A machine that states
    /// nothing of its name keeps this default, which allows any.
    open spec fn named(&self, n: Seq<char>) -> bool {
        true
    }

    fn name(&self) -> (r: &str)
        ensures
            self.named(r@),
    ;

    fn list_snapshots(&self) -> Result<Vec<String>, Error>;

    fn stop(&mut self) -> Result<(), Error>;

    fn start(&mut self) -> Result<(), Error>;

    fn revert_to(&mut self, snapshot_name: &str) -> Result<(), Error>;

    fn create_snapshot(&mut self, snapshot_name: &str) -> Result<(), Error>;
}

} // verus!
