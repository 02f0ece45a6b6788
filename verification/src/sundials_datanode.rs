use vstd::prelude::*;

verus! {

/// The index of a child in a list node.
pub type sundataindex = i64;

/// What a data node holds.
#[derive(Debug, Clone, Copy, PartialEq, Eq, Structural)]
pub enum SUNDataNodeType {
    /// data and no children
    SUNDATANODE_LEAF,
    /// anonymous children in order
    SUNDATANODE_LIST,
    /// named children
    SUNDATANODE_OBJECT,
}

} // verus!
