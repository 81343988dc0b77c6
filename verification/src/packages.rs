//! The packages a machine can import: their functions and types.

use crate::value::Parameter;
use vstd::prelude::*;

verus! {

/// A package: what it is called, how it runs, and what it offers.
#[derive(Debug, Clone)]
pub struct PackageInfo {
    pub name: String,
    pub version: String,
    pub kind: String,
    pub digest: Option<String>,
    pub detached: bool,
    /// The functions, each with its parameters.
    pub functions: Vec<(String, Vec<Parameter>)>,
    /// The names of the types.
    pub types: Vec<String>,
}

/// The packages a machine can import, one version of each.
#[derive(Debug, Clone)]
pub struct PackageIndex {
    pub packages: Vec<PackageInfo>,
}

impl PackageIndex {
    /// An index without packages.
    pub fn empty() -> (r: PackageIndex)
        ensures
            r.packages@.len() == 0,
    {
        PackageIndex { packages: Vec::new() }
    }

    /// Returns the first package of the given name, if there is one.
    pub fn get(&self, name: &String) -> (r: Option<&PackageInfo>)
        ensures
            match r {
                Some(p) => exists|i: int|
                    0 <= i < self.packages@.len() && self.packages@[i] == *p && p.name@ == name@
                        && forall|j: int| 0 <= j < i ==> self.packages@[j].name@ != name@,
                None => forall|i: int| 0 <= i < self.packages@.len() ==> self.packages@[i].name@ != name@,
            },
    {
        let mut i: usize = 0;
        while i < self.packages.len()
            invariant
                i <= self.packages@.len(),
                forall|j: int| 0 <= j < i ==> self.packages@[j].name@ != name@,
            decreases self.packages@.len() - i,
        {
            if self.packages[i].name == *name {
                return Some(&self.packages[i]);
            }
            i = i + 1;
        }
        None
    }
}

impl Default for PackageIndex {
    fn default() -> (r: PackageIndex)
        ensures
            r.packages@.len() == 0,
    {
        PackageIndex::empty()
    }
}

} // verus!
