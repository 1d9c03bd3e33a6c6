use vstd::prelude::*;

verus! {

/// A kind of component of a PRISM model, used to report duplicate definitions.
#[derive(Debug, PartialEq, Eq, Structural, Clone, Copy)]
pub enum ElementKind {
    /// A global variable.
    GlobalVar,
    /// A local variable, i.e. one declared within a module.
    LocalVar,
    /// A constant.
    Const,
    /// A label.
    Label,
    /// A formula.
    Formula,
    /// A reward structure.
    Reward,
    /// A module.
    Module,
    /// An attribute.
    Attribute,
}

/// Which part of the input a parse error originated from.
#[derive(Debug, PartialEq, Eq, Structural, Clone, Copy)]
pub enum ErrorSource {
    /// The error was produced while parsing the model.
    Model,
    /// The error was produced while parsing the property at the given index.
    Property {
        /// The index of the property.
        index: usize,
    },
}

} // verus!
