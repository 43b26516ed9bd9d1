//! Locations of scratch directories under the work path.

use vstd::prelude::*;

use crate::support::path::{join, join_path};

verus! {

/// The directory named `name` under `work_path`.
pub fn temp_dir_for(work_path: &str, name: &str) -> (dir: String)
    ensures
        dir@ == join_path(work_path@, name@),
{
    join(work_path, name)
}

} // verus!
