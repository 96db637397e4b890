//! Opening the project page to get a newer bake.
use vstd::prelude::*;

use crate::viewmodel::capabilities::Capabilities;

verus! {

/// Where newer versions of bake are published.
pub const UPDATE_URL: &'static str = "https://github.com/ali77gh/bake-rs";

/// Opens [UPDATE_URL] through the capabilities.
pub fn update<C: Capabilities>(capabilities: &C) {
    capabilities.open_link(UPDATE_URL);
}

} // verus!
