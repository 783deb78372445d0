//! Manifests: named bundles of actions with their dependencies.

use crate::actions::Actions;
use vstd::prelude::*;

verus! {

/// A named, ordered list of actions, with the names of the manifests that
/// have to be applied before it.
///
/// `root_dir` is the directory the manifest was loaded from; actions resolve
/// the files they ship relative to it. `dag_index` is the manifest's position
/// in the execution order, absent until the order has been computed.
#[derive(Clone, Debug, PartialEq)]
pub struct Manifest {
    pub name: Option<String>,
    pub actions: Vec<Actions>,
    pub depends: Vec<String>,
    pub root_dir: Option<String>,
    pub dag_index: Option<usize>,
}

} // verus!
