//! The commands of the project tree that carry the item they act on.

use vstd::prelude::*;

verus! {

/// Create a request file under the folder node `parent_id`.
#[derive(Clone, Debug)]
pub struct CreateFile {
    pub parent_id: usize,
}

/// Rename the node `node_id`, now called `node_name`, to `new_name`.
#[derive(Clone, Debug)]
pub struct RenameFile {
    pub node_id: usize,
    pub node_name: String,
    pub new_name: String,
}

} // verus!
