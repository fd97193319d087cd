use vstd::prelude::*;

use crate::error::CodegenError;
use crate::fields::{fields_out, named_of, named_pushed, tuple_of, Fields};
use crate::formatter::{put_str, FmtState, Formatter};
use crate::types::Type;

verus! {

/// A variant of an enum: a name and its fields.
#[derive(Debug)]
pub struct Variant {
    name: String,
    fields: Fields,
}

/// The name of a variant.
pub closed spec fn variant_name(v: Variant) -> Seq<char> {
    v.name@
}

/// The fields of a variant.
pub closed spec fn variant_fields(v: Variant) -> Fields {
    v.fields
}

/// What writing a variant does: its name, its fields, then `,` and a line
/// break.
pub open spec fn variant_out(st: FmtState, v: Variant) -> FmtState {
    put_str(fields_out(put_str(st, variant_name(v)), variant_fields(v)), ",\n"@)
}

impl Variant {
    /// A variant with the given name and no fields.
    pub fn new(name: &str) -> (r: Variant)
        ensures
            variant_name(r) == name@,
            variant_fields(r) is Empty,
    {
        Variant { name: String::from_str(name), fields: Fields::Empty }
    }

    /// Adds a named field. A variant with positional fields takes none: it
    /// is then left as it was.
    pub fn named(&mut self, name: &str, ty: Type) -> (r: Result<&mut Self, CodegenError>)
        ensures
            (variant_fields(*old(self)) is Tuple) ==> r is Err && r->Err_0
                == CodegenError::FieldModeConflict && *final(self) == *old(self),
            !(variant_fields(*old(self)) is Tuple) ==> r is Ok && variant_name(*r->Ok_0)
                == variant_name(*old(self)) && variant_fields(*r->Ok_0) is Named && named_pushed(
                named_of(variant_fields(*old(self))),
                named_of(variant_fields(*r->Ok_0)),
                name@,
                ty,
            ) && *final(self) == *final(r->Ok_0),
    {
        match self.fields.named(name, ty) {
            Ok(_) => Ok(self),
            Err(e) => Err(e),
        }
    }

    /// Adds a positional field. A variant with named fields takes none: it
    /// is then left as it was.
    pub fn tuple(&mut self, ty: Type) -> (r: Result<&mut Self, CodegenError>)
        ensures
            (variant_fields(*old(self)) is Named) ==> r is Err && r->Err_0
                == CodegenError::FieldModeConflict && *final(self) == *old(self),
            !(variant_fields(*old(self)) is Named) ==> r is Ok && variant_name(*r->Ok_0)
                == variant_name(*old(self)) && variant_fields(*r->Ok_0) is Tuple && tuple_of(
                variant_fields(*r->Ok_0),
            ) == tuple_of(variant_fields(*old(self))).push(ty) && *final(self) == *final(
                r->Ok_0),
    {
        match self.fields.tuple(ty) {
            Ok(_) => Ok(self),
            Err(e) => Err(e),
        }
    }

    /// Writes the variant as `variant_out` says.
    pub fn fmt(&self, fmt: &mut Formatter)
        requires
            old(fmt)@.depth < usize::MAX,
        ensures
            final(fmt)@ == variant_out(old(fmt)@, *self),
            final(fmt)@.depth == old(fmt)@.depth,
    {
        fmt.write_string(&self.name);
        self.fields.fmt(fmt);
        fmt.write(",\n");
    }
}

pub proof fn lemma_variant_out_depth(st: FmtState, v: Variant)
    ensures
        variant_out(st, v).depth == st.depth,
{
    let s1 = put_str(st, variant_name(v));
    crate::formatter::lemma_put_str_depth(st, variant_name(v));
    crate::fields::lemma_fields_out_depth(s1, variant_fields(v));
    crate::formatter::lemma_put_str_depth(fields_out(s1, variant_fields(v)), ",\n"@);
}

} // verus!
