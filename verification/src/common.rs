//! Small shared pieces: verbosity switches, whether settings changed, and
//! what the application observed of a path on disk.

use vstd::prelude::*;

verus! {

/// A component that can report more while it works.
pub trait Verbosity {
    spec fn spec_is_verbose(&self) -> bool;

    fn verbose(&mut self, verbose: bool)
        ensures
            final(self).spec_is_verbose() == verbose,
    ;

    fn is_verbose(&self) -> (r: bool)
        ensures
            r == self.spec_is_verbose(),
    ;
}

/// Whether a step changed the settings, which then have to be saved.
#[derive(Clone, Copy, PartialEq, Eq, Structural, Debug)]
pub enum ConfigStatus {
    NotModified,
    Modified,
}

impl ConfigStatus {
    /// The settings changed over two steps when they changed in either.
    pub fn combine(self, other: ConfigStatus) -> (r: ConfigStatus)
        ensures
            (r is Modified) == (self is Modified || other is Modified),
    {
        match self {
            ConfigStatus::Modified => ConfigStatus::Modified,
            ConfigStatus::NotModified => other,
        }
    }

    /// The settings changed over a run of steps when they changed in any
    /// of them.
    pub fn combine_all(statuses: &Vec<ConfigStatus>) -> (r: ConfigStatus)
        ensures
            (r is Modified) == exists|i: int| 0 <= i < statuses@.len() && #[trigger] statuses@[i] is Modified,
    {
        let mut status = ConfigStatus::NotModified;
        let mut i: usize = 0;
        while i < statuses.len()
            invariant
                i <= statuses@.len(),
                (status is Modified) == exists|j: int| 0 <= j < i && #[trigger] statuses@[j] is Modified,
            decreases statuses@.len() - i,
        {
            status = status.combine(statuses[i]);
            i = i + 1;
        }
        status
    }
}

/// What reading a path's metadata told: nothing is there, a file, a
/// directory, something else, or the metadata could not be read.
#[derive(Clone, Copy, PartialEq, Eq, Structural, Debug)]
pub enum PathState {
    Missing,
    File,
    Directory,
    Other,
    Unreadable,
}

} // verus!
