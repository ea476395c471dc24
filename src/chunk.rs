//! The compiled artifact: instructions and the table of names they index.
use crate::instruction::Instruction;
use vstd::prelude::*;

verus! {

#[derive(Debug, Default)]
pub struct Chunk {
    pub instructions: Vec<Instruction>,
    pub variables: Vec<String>,
}

impl Chunk {
    /// The name table, as text.
    pub open spec fn names(&self) -> Seq<Seq<char>> {
        self.variables@.map_values(|s: String| s@)
    }

    pub fn new() -> (r: Self)
        ensures
            r.instructions.len() == 0,
            r.variables.len() == 0,
    {
        Self { instructions: Vec::new(), variables: Vec::new() }
    }

    /// Appends a name to the table and returns its index.
    pub fn add_variable(&mut self, s: &str) -> (r: usize)
        ensures
            final(self).instructions == old(self).instructions,
            final(self).names() == old(self).names().push(s@),
            r == old(self).variables.len(),
    {
        self.variables.push(s.to_owned());
        assert(self.names() =~= old(self).names().push(s@));
        self.variables.len() - 1
    }
}

} // verus!
