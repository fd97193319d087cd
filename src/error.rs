use vstd::prelude::*;

verus! {

/// Ways in which a declaration tree can be built or rendered wrongly.
#[derive(Clone, Copy, Debug, PartialEq, Eq, Structural)]
pub enum CodegenError {
    /// A positional field pushed onto named fields, or the other way round.
    FieldModeConflict,
    /// A generic added to a type whose name already holds `<`.
    GenericOnBracketedName,
    /// A module created under a name that its scope already holds.
    DuplicateModule,
    /// A function of a trait that carries a visibility.
    VisibilityInTrait,
    /// A function outside a trait that has no body.
    MissingBody,
}

} // verus!
