//! What the smaller view model needs from its host.
use vstd::prelude::*;

verus! {

/// The one side effect of the smaller view model.
pub trait Capabilities {
    /// The content of a file, or `None` when it does not exist.
    fn read_file(&self, file_name: &str) -> Option<String>;
}

} // verus!
