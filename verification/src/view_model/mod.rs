//! A smaller view model that only reads the bakefile.
pub mod capabilities;

use vstd::prelude::*;
use vstd::string::*;

use crate::model::bake_file::{bake_file_of, BakeFile};
use capabilities::Capabilities;

verus! {

/// The bakefile of a project.
pub const BAKE_FILE_NAME: &'static str = "bakefile.yaml";

/// The bakefile read through the capabilities.
pub struct BakeViewModel<C: Capabilities> {
    bake_file: BakeFile,
    caps: C,
}

impl<C: Capabilities> BakeViewModel<C> {
    /// Reads `bakefile.yaml`; an error when it does not exist or does not read.
    pub fn new(caps: C) -> (r: Result<Self, String>)
        ensures
            match r {
                Ok(b) => exists|text: Seq<char>| bake_file_of(text) == Ok::<
                    crate::model::bake_file::BakeFileView,
                    Seq<char>,
                >(b.bake_file_spec()@),
                Err(e) => e@ == "bakefile not found"@ || exists|text: Seq<char>| #[trigger]
                    bake_file_of(text) == Err::<crate::model::bake_file::BakeFileView, Seq<char>>(
                        e@,
                    ),
            },
    {
        if let Some(content) = caps.read_file(BAKE_FILE_NAME) {
            match BakeFile::from_yaml(content.as_str()) {
                Ok(bake_file) => Ok(Self { bake_file, caps }),
                Err(e) => Err(e),
            }
        } else {
            Err(String::from_str("bakefile not found"))
        }
    }

    pub closed spec fn bake_file_spec(&self) -> BakeFile {
        self.bake_file
    }

    /// The bakefile.
    pub fn bake_file(&self) -> (r: &BakeFile)
        ensures
            *r == self.bake_file_spec(),
    {
        &self.bake_file
    }
}

} // verus!
