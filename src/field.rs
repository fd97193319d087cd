use vstd::prelude::*;

use crate::formatter::{strs, to_strings};
use crate::types::Type;

verus! {

/// A named field of a struct or variant.
#[derive(Debug)]
pub struct Field {
    /// Field name.
    pub name: String,
    /// Field type.
    pub ty: Type,
    /// Documentation lines, written before the field.
    pub documentation: Vec<String>,
    /// Annotation lines, written after the documentation.
    pub annotation: Vec<String>,
}

impl Field {
    /// A field with the given name and type, without documentation or
    /// annotations.
    pub fn new(name: &str, ty: Type) -> (r: Field)
        ensures
            r.name@ == name@,
            r.ty == ty,
            r.documentation@.len() == 0,
            r.annotation@.len() == 0,
    {
        Field {
            name: String::from_str(name),
            ty,
            documentation: Vec::new(),
            annotation: Vec::new(),
        }
    }

    /// Sets the documentation lines.
    pub fn doc(&mut self, documentation: Vec<&str>) -> (r: &mut Self)
        ensures
            strs(r.documentation@) == documentation@.map_values(|s: &str| s@),
            r.name == old(self).name,
            r.ty == old(self).ty,
            r.annotation == old(self).annotation,
            *final(self) == *final(r),
    {
        self.documentation = to_strings(&documentation);
        self
    }

    /// Sets the annotation lines.
    pub fn annotation(&mut self, annotation: Vec<&str>) -> (r: &mut Self)
        ensures
            strs(r.annotation@) == annotation@.map_values(|s: &str| s@),
            r.name == old(self).name,
            r.ty == old(self).ty,
            r.documentation == old(self).documentation,
            *final(self) == *final(r),
    {
        self.annotation = to_strings(&annotation);
        self
    }
}

} // verus!
