use vstd::prelude::*;

use crate::error::CodegenError;
use crate::field::Field;
use crate::fields::{fields_out, named_of, named_pushed, tuple_of, Fields};
use crate::formatter::{
    fmt_wrapped_lines, lemma_put_str_concat, put_str, strs, wrapped_lines, FmtState, Formatter,
};
use crate::type_def::{generic_added, head_text, TypeDef, TypeDefModel};
use crate::types::{ty_generics, ty_name, Type};

verus! {

/// What a struct holds.
pub struct StructModel {
    pub type_def: TypeDefModel,
    pub fields: Fields,
    pub attributes: Seq<Seq<char>>,
}

/// A struct definition.
#[derive(Debug)]
pub struct Struct {
    type_def: TypeDef,
    fields: Fields,
    attributes: Vec<String>,
}

impl View for Struct {
    type V = StructModel;

    closed spec fn view(&self) -> StructModel {
        StructModel {
            type_def: self.type_def@,
            fields: self.fields,
            attributes: strs(self.attributes@),
        }
    }
}

/// What writing a struct does: its attribute lines and header, its fields,
/// and `;` with a line break unless the fields are named.
pub open spec fn struct_out(st: FmtState, m: StructModel) -> FmtState {
    let head = wrapped_lines(m.attributes, ""@, "\n"@) + head_text(m.type_def, "struct"@, Seq::empty());
    let after = fields_out(put_str(st, head), m.fields);
    if m.fields is Named {
        after
    } else {
        put_str(after, ";\n"@)
    }
}

/// A struct of the given name that holds nothing else.
pub open spec fn bare_struct(m: StructModel, name: Seq<char>) -> bool {
    &&& ty_name(m.type_def.ty) == name
    &&& ty_generics(m.type_def.ty).len() == 0
    &&& m.type_def == TypeDefModel {
        ty: m.type_def.ty,
        vis: None,
        docs: None,
        derive: Seq::empty(),
        allow: Seq::empty(),
        repr: None,
        bounds: Seq::empty(),
        macros: Seq::empty(),
    }
    &&& m.fields is Empty
    &&& m.attributes.len() == 0
}

impl Struct {
    /// A struct of the given name, without fields.
    pub fn new(name: &str) -> (r: Struct)
        ensures
            bare_struct(r@, name@),
    {
        let r = Struct { type_def: TypeDef::new(name), fields: Fields::Empty, attributes: Vec::new() };
        assert(r@.attributes =~= Seq::empty());
        r
    }

    /// The struct's type.
    pub fn ty(&self) -> (r: &Type)
        ensures
            *r == self@.type_def.ty,
    {
        self.type_def.ty()
    }

    /// Sets the visibility.
    pub fn vis(&mut self, vis: &str) -> (r: &mut Self)
        ensures
            r@ == (StructModel { type_def: TypeDefModel { vis: Some(vis@), ..old(self)@.type_def }, ..old(self)@ }),
            *final(self) == *final(r),
    {
        self.type_def.vis(vis);
        self
    }

    /// Adds a generic to the struct's type; see `Type::generic`.
    pub fn generic(&mut self, name: &str) -> (r: Result<&mut Self, CodegenError>)
        ensures
            ty_name(old(self)@.type_def.ty).contains('<') ==> r is Err && r->Err_0
                == CodegenError::GenericOnBracketedName && *final(self) == *old(self),
            !ty_name(old(self)@.type_def.ty).contains('<') ==> r is Ok && r->Ok_0@ == (StructModel {
                type_def: TypeDefModel { ty: r->Ok_0@.type_def.ty, ..old(self)@.type_def },
                ..old(self)@
            }) && generic_added(old(self)@.type_def.ty, r->Ok_0@.type_def.ty, name@)
                && *final(self) == *final(r->Ok_0),
    {
        match self.type_def.generic(name) {
            Ok(()) => Ok(self),
            Err(e) => Err(e),
        }
    }

    /// Adds a `where` bound of one type.
    pub fn bound(&mut self, name: &str, ty: Type) -> (r: &mut Self)
        ensures
            r@ == (StructModel {
                type_def: TypeDefModel {
                    bounds: old(self)@.type_def.bounds.push(r@.type_def.bounds.last()),
                    ..old(self)@.type_def
                },
                ..old(self)@
            }),
            r@.type_def.bounds.last().name@ == name@,
            r@.type_def.bounds.last().bound@ == seq![ty],
            *final(self) == *final(r),
    {
        self.type_def.bound(name, ty);
        self
    }

    /// Sets the documentation.
    pub fn doc(&mut self, docs: &str) -> (r: &mut Self)
        ensures
            r@ == (StructModel {
                type_def: TypeDefModel { docs: r@.type_def.docs, ..old(self)@.type_def },
                ..old(self)@
            }),
            r@.type_def.docs is Some,
            crate::docs::doc_lines(r@.type_def.docs->0) == crate::docs::lines_of(docs@),
            *final(self) == *final(r),
    {
        self.type_def.doc(docs);
        self
    }

    /// Adds a name to derive.
    pub fn derive(&mut self, name: &str) -> (r: &mut Self)
        ensures
            r@ == (StructModel {
                type_def: TypeDefModel {
                    derive: old(self)@.type_def.derive.push(name@),
                    ..old(self)@.type_def
                },
                ..old(self)@
            }),
            *final(self) == *final(r),
    {
        self.type_def.derive(name);
        self
    }

    /// Adds a lint to allow.
    pub fn allow(&mut self, allow: &str) -> (r: &mut Self)
        ensures
            r@ == (StructModel {
                type_def: TypeDefModel {
                    allow: old(self)@.type_def.allow.push(allow@),
                    ..old(self)@.type_def
                },
                ..old(self)@
            }),
            *final(self) == *final(r),
    {
        self.type_def.allow(allow);
        self
    }

    /// Sets the representation.
    pub fn repr(&mut self, repr: &str) -> (r: &mut Self)
        ensures
            r@ == (StructModel { type_def: TypeDefModel { repr: Some(repr@), ..old(self)@.type_def }, ..old(self)@ }),
            *final(self) == *final(r),
    {
        self.type_def.repr(repr);
        self
    }

    /// Pushes a named field. A struct with positional fields takes none: it
    /// is then left as it was.
    pub fn push_field(&mut self, field: Field) -> (r: Result<&mut Self, CodegenError>)
        ensures
            (old(self)@.fields is Tuple) ==> r is Err && r->Err_0 == CodegenError::FieldModeConflict
                && *final(self) == *old(self),
            !(old(self)@.fields is Tuple) ==> r is Ok && r->Ok_0@ == (StructModel {
                fields: r->Ok_0@.fields,
                ..old(self)@
            }) && r->Ok_0@.fields is Named && named_of(r->Ok_0@.fields) == named_of(
                old(self)@.fields,
            ).push(field) && *final(self) == *final(r->Ok_0),
    {
        match self.fields.push_named(field) {
            Ok(_) => Ok(self),
            Err(e) => Err(e),
        }
    }

    /// Pushes a named field of the given name and type. A struct with
    /// positional fields takes none: it is then left as it was.
    pub fn field(&mut self, name: &str, ty: Type) -> (r: Result<&mut Self, CodegenError>)
        ensures
            (old(self)@.fields is Tuple) ==> r is Err && r->Err_0 == CodegenError::FieldModeConflict
                && *final(self) == *old(self),
            !(old(self)@.fields is Tuple) ==> r is Ok && r->Ok_0@ == (StructModel {
                fields: r->Ok_0@.fields,
                ..old(self)@
            }) && r->Ok_0@.fields is Named && named_pushed(
                named_of(old(self)@.fields),
                named_of(r->Ok_0@.fields),
                name@,
                ty,
            ) && *final(self) == *final(r->Ok_0),
    {
        match self.fields.named(name, ty) {
            Ok(_) => Ok(self),
            Err(e) => Err(e),
        }
    }

    /// Pushes a positional field. A struct with named fields takes none: it
    /// is then left as it was.
    pub fn tuple_field(&mut self, ty: Type) -> (r: Result<&mut Self, CodegenError>)
        ensures
            (old(self)@.fields is Named) ==> r is Err && r->Err_0 == CodegenError::FieldModeConflict
                && *final(self) == *old(self),
            !(old(self)@.fields is Named) ==> r is Ok && r->Ok_0@ == (StructModel {
                fields: r->Ok_0@.fields,
                ..old(self)@
            }) && r->Ok_0@.fields is Tuple && tuple_of(r->Ok_0@.fields) == tuple_of(
                old(self)@.fields,
            ).push(ty) && *final(self) == *final(r->Ok_0),
    {
        match self.fields.tuple(ty) {
            Ok(_) => Ok(self),
            Err(e) => Err(e),
        }
    }

    /// Adds an attribute line, such as `#[some_attribute]`.
    pub fn attr(&mut self, attribute: &str) -> (r: &mut Self)
        ensures
            r@ == (StructModel { attributes: old(self)@.attributes.push(attribute@), ..old(self)@ }),
            *final(self) == *final(r),
    {
        let ghost prev = self.attributes@;
        self.attributes.push(String::from_str(attribute));
        assert(strs(self.attributes@) =~= strs(prev).push(attribute@));
        self
    }

    /// Writes the struct as `struct_out` says.
    pub fn fmt(&self, fmt: &mut Formatter)
        requires
            old(fmt)@.depth < usize::MAX,
        ensures
            final(fmt)@ == struct_out(old(fmt)@, self@),
            final(fmt)@.depth == old(fmt)@.depth,
    {
        fmt_wrapped_lines(&self.attributes, "", "\n", fmt);
        let empty: Vec<Type> = Vec::new();
        self.type_def.fmt_head("struct", &empty, fmt);
        proof {
            assert(empty@ =~= Seq::<Type>::empty());
            lemma_put_str_concat(
                old(fmt)@,
                wrapped_lines(self@.attributes, ""@, "\n"@),
                head_text(self@.type_def, "struct"@, Seq::empty()),
            );
        }
        self.fields.fmt(fmt);
        match &self.fields {
            Fields::Named(_) => {},
            _ => {
                fmt.write(";\n");
            },
        }
    }
}

pub proof fn lemma_struct_out_depth(st: FmtState, m: StructModel)
    ensures
        struct_out(st, m).depth == st.depth,
{
    let head = wrapped_lines(m.attributes, ""@, "\n"@) + head_text(m.type_def, "struct"@, Seq::empty());
    crate::formatter::lemma_put_str_depth(st, head);
    crate::fields::lemma_fields_out_depth(put_str(st, head), m.fields);
    crate::formatter::lemma_put_str_depth(fields_out(put_str(st, head), m.fields), ";\n"@);
}

} // verus!
