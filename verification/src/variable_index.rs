use vstd::prelude::*;

verus! {

/// The scope of a variable as one number: a module index for local variables, and two reserved
/// values (the largest two) for global variables and global constants. Its view is that number.
pub struct VariableIndex {
    index: usize,
}

impl View for VariableIndex {
    type V = usize;

    closed spec fn view(&self) -> usize {
        self.index
    }
}

impl VariableIndex {
    /// The index of variables local to the module `index`. The two largest values of `usize`
    /// are reserved and cannot be used.
    pub fn local(index: usize) -> (r: Self)
        requires
            index < usize::MAX - 1,
        ensures
            r@ == index,
    {
        VariableIndex { index }
    }

    /// The index of global variables.
    pub fn global_var() -> (r: Self)
        ensures
            r@ == usize::MAX - 1,
    {
        VariableIndex { index: usize::MAX - 1 }
    }

    /// The index of global constants.
    pub fn global_const() -> (r: Self)
        ensures
            r@ == usize::MAX,
    {
        VariableIndex { index: usize::MAX }
    }
}

} // verus!
