use vstd::prelude::*;

use crate::tac::Instruction;

verus! {

/// A straight-line run of three-address instructions and its neighbours in
/// the control-flow graph, by block id.
pub struct BasicBlock {
    pub id: usize,
    pub instructions: Vec<Instruction>,
    pub predecessors: Vec<usize>,
    pub successors: Vec<usize>,
}

impl BasicBlock {
    /// An empty block with no neighbours.
    pub fn new(id: usize) -> (r: BasicBlock)
        ensures
            r.id == id,
            r.instructions@.len() == 0,
            r.predecessors@.len() == 0,
            r.successors@.len() == 0,
    {
        BasicBlock {
            id,
            instructions: Vec::new(),
            predecessors: Vec::new(),
            successors: Vec::new(),
        }
    }
}

} // verus!
