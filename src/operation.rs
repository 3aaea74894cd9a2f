//! Versioned capabilities that a service advertises.
use vstd::prelude::*;

verus! {


/// A semantic version `major.minor.patch`.
#[derive(Clone, Copy, Debug, PartialEq, Eq, Hash, Structural)]
pub struct Version {
    pub major: u64,
    pub minor: u64,
    pub patch: u64,
}

impl Version {
    pub fn new(major: u64, minor: u64, patch: u64) -> (r: Version)
        ensures
            r == (Version { major, minor, patch }),
    {
        Version { major, minor, patch }
    }
}

/// A named, versioned capability. Two operations are equal when their names
/// and versions are; the description is metadata.
#[derive(Debug)]
pub struct Operation {
    name: String,
    version: Version,
    description: String,
}

pub struct OperationView {
    pub name: Seq<char>,
    pub version: Version,
    pub description: Seq<char>,
}

impl View for Operation {
    type V = OperationView;

    closed spec fn view(&self) -> OperationView {
        OperationView { name: self.name@, version: self.version, description: self.description@ }
    }
}

impl Clone for Operation {
    fn clone(&self) -> (r: Self)
        ensures
            r@ == self@,
    {
        Operation {
            name: self.name.clone(),
            version: self.version,
            description: self.description.clone(),
        }
    }
}

impl PartialEq for Operation {
    fn eq(&self, other: &Operation) -> (r: bool) {
        self.name == other.name && self.version == other.version
    }
}

impl vstd::std_specs::cmp::PartialEqSpecImpl for Operation {
    open spec fn obeys_eq_spec() -> bool {
        true
    }

    open spec fn eq_spec(&self, other: &Operation) -> bool {
        self@.name == other@.name && self@.version == other@.version
    }
}

impl Operation {
    pub fn new(name: String, version: Version, description: String) -> (r: Operation)
        ensures
            r@ == (OperationView { name: name@, version, description: description@ }),
    {
        Operation { name, version, description }
    }

    pub fn name(&self) -> (r: &String)
        ensures
            r@ == self@.name,
    {
        &self.name
    }

    pub fn version(&self) -> (r: Version)
        ensures
            r == self@.version,
    {
        self.version
    }
}

/// Why an operation could not be served.
#[derive(Debug, Clone, Copy, PartialEq, Eq, Structural)]
pub enum OperationError {
    OperationNotFound,
    OperationNotFoundInNode,
    OperationNotFoundInService,
}

/// A handler attached to an operation.
pub struct OperationHandler<F> {
    pub handler: F,
}

} // verus!
