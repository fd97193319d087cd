use vstd::prelude::*;

use crate::error::CodegenError;
use crate::formatter::{close_block_out, open_block_out, put_str, FmtState, Formatter};
use crate::type_def::{generic_added, head_text, TypeDef, TypeDefModel};
use crate::types::{ty_generics, ty_name, Type};
use crate::variant::{variant_fields, variant_name, variant_out, Variant};

verus! {

/// What an enum holds.
pub struct EnumModel {
    pub type_def: TypeDefModel,
    pub variants: Seq<Variant>,
}

/// An enum definition.
#[derive(Debug)]
pub struct Enum {
    type_def: TypeDef,
    variants: Vec<Variant>,
}

impl View for Enum {
    type V = EnumModel;

    closed spec fn view(&self) -> EnumModel {
        EnumModel { type_def: self.type_def@, variants: self.variants@ }
    }
}

/// What writing variants one after the other does.
pub open spec fn variants_out(st: FmtState, vs: Seq<Variant>) -> FmtState
    decreases vs.len(),
{
    if vs.len() == 0 {
        st
    } else {
        variant_out(variants_out(st, vs.drop_last()), vs.last())
    }
}

/// What writing an enum does: its header, then a block of its variants.
pub open spec fn enum_out(st: FmtState, m: EnumModel) -> FmtState {
    close_block_out(
        variants_out(open_block_out(put_str(st, head_text(m.type_def, "enum"@, Seq::empty()))), m.variants),
    )
}

/// An enum whose type is `ty` and that holds nothing else.
pub open spec fn bare_enum(m: EnumModel, name: Seq<char>) -> bool {
    &&& ty_name(m.type_def.ty) == name
    &&& ty_generics(m.type_def.ty).len() == 0
    &&& m.type_def == TypeDefModel {
        ty: m.type_def.ty,
        vis: None,
        docs: None,
        derive: Seq::empty(),
        allow: Seq::empty(),
        repr: None,
        bounds: Seq::empty(),
        macros: Seq::empty(),
    }
    &&& m.variants.len() == 0
}

impl Enum {
    /// An enum of the given name, without variants.
    pub fn new(name: &str) -> (r: Enum)
        ensures
            bare_enum(r@, name@),
    {
        Enum { type_def: TypeDef::new(name), variants: Vec::new() }
    }

    /// The enum's type.
    pub fn ty(&self) -> (r: &Type)
        ensures
            *r == self@.type_def.ty,
    {
        self.type_def.ty()
    }

    /// Sets the visibility.
    pub fn vis(&mut self, vis: &str) -> (r: &mut Self)
        ensures
            r@ == (EnumModel { type_def: TypeDefModel { vis: Some(vis@), ..old(self)@.type_def }, ..old(self)@ }),
            *final(self) == *final(r),
    {
        self.type_def.vis(vis);
        self
    }

    /// Adds a generic to the enum's type; see `Type::generic`.
    pub fn generic(&mut self, name: &str) -> (r: Result<&mut Self, CodegenError>)
        ensures
            ty_name(old(self)@.type_def.ty).contains('<') ==> r is Err && r->Err_0
                == CodegenError::GenericOnBracketedName && *final(self) == *old(self),
            !ty_name(old(self)@.type_def.ty).contains('<') ==> r is Ok && r->Ok_0@ == (EnumModel {
                type_def: TypeDefModel { ty: r->Ok_0@.type_def.ty, ..old(self)@.type_def },
                ..old(self)@
            }) && generic_added(old(self)@.type_def.ty, r->Ok_0@.type_def.ty, name@)
                && *final(self) == *final(r->Ok_0),
    {
        match self.type_def.generic(name) {
            Ok(()) => Ok(self),
            Err(e) => Err(e),
        }
    }

    /// Adds a `where` bound of one type.
    pub fn bound(&mut self, name: &str, ty: Type) -> (r: &mut Self)
        ensures
            r@ == (EnumModel {
                type_def: TypeDefModel {
                    bounds: old(self)@.type_def.bounds.push(r@.type_def.bounds.last()),
                    ..old(self)@.type_def
                },
                ..old(self)@
            }),
            r@.type_def.bounds.last().name@ == name@,
            r@.type_def.bounds.last().bound@ == seq![ty],
            *final(self) == *final(r),
    {
        self.type_def.bound(name, ty);
        self
    }

    /// Sets the documentation.
    pub fn doc(&mut self, docs: &str) -> (r: &mut Self)
        ensures
            r@ == (EnumModel {
                type_def: TypeDefModel { docs: r@.type_def.docs, ..old(self)@.type_def },
                ..old(self)@
            }),
            r@.type_def.docs is Some,
            crate::docs::doc_lines(r@.type_def.docs->0) == crate::docs::lines_of(docs@),
            *final(self) == *final(r),
    {
        self.type_def.doc(docs);
        self
    }

    /// Adds a name to derive.
    pub fn derive(&mut self, name: &str) -> (r: &mut Self)
        ensures
            r@ == (EnumModel {
                type_def: TypeDefModel {
                    derive: old(self)@.type_def.derive.push(name@),
                    ..old(self)@.type_def
                },
                ..old(self)@
            }),
            *final(self) == *final(r),
    {
        self.type_def.derive(name);
        self
    }

    /// Adds a lint to allow.
    pub fn allow(&mut self, allow: &str) -> (r: &mut Self)
        ensures
            r@ == (EnumModel {
                type_def: TypeDefModel {
                    allow: old(self)@.type_def.allow.push(allow@),
                    ..old(self)@.type_def
                },
                ..old(self)@
            }),
            *final(self) == *final(r),
    {
        self.type_def.allow(allow);
        self
    }

    /// Sets the representation.
    pub fn repr(&mut self, repr: &str) -> (r: &mut Self)
        ensures
            r@ == (EnumModel { type_def: TypeDefModel { repr: Some(repr@), ..old(self)@.type_def }, ..old(self)@ }),
            *final(self) == *final(r),
    {
        self.type_def.repr(repr);
        self
    }

    /// Pushes a new variant of the given name and hands it back.
    pub fn new_variant(&mut self, name: &str) -> (r: &mut Variant)
        ensures
            variant_name(*r) == name@,
            variant_fields(*r) is Empty,
            final(self)@ == (EnumModel { variants: old(self)@.variants.push(*final(r)), ..old(self)@ }),
    {
        self.variants.push(Variant::new(name));
        let n = self.variants.len();
        proof {
            let pushed = self.variants@;
            assert forall|x: Variant| #[trigger] pushed.update(n - 1, x) == old(self)@.variants.push(x) by {
                assert(pushed.update(n - 1, x) =~= old(self)@.variants.push(x));
            }
        }
        &mut self.variants[n - 1]
    }

    /// Pushes a variant.
    pub fn push_variant(&mut self, item: Variant) -> (r: &mut Self)
        ensures
            r@ == (EnumModel { variants: old(self)@.variants.push(item), ..old(self)@ }),
            *final(self) == *final(r),
    {
        self.variants.push(item);
        self
    }

    /// Writes the enum as `enum_out` says.
    pub fn fmt(&self, fmt: &mut Formatter)
        requires
            old(fmt)@.depth + 1 < usize::MAX,
        ensures
            final(fmt)@ == enum_out(old(fmt)@, self@),
            final(fmt)@.depth == old(fmt)@.depth,
    {
        let empty: Vec<Type> = Vec::new();
        self.type_def.fmt_head("enum", &empty, fmt);
        assert(empty@ =~= Seq::<Type>::empty());
        fmt.open_block();
        let ghost start = fmt@;
        let mut i: usize = 0;
        while i < self.variants.len()
            invariant
                i <= self.variants.len(),
                fmt@ == variants_out(start, self.variants@.take(i as int)),
                fmt@.depth == start.depth,
                start.depth < usize::MAX,
            decreases self.variants.len() - i,
        {
            self.variants[i].fmt(fmt);
            assert(self.variants@.take(i + 1).drop_last() =~= self.variants@.take(i as int));
            i = i + 1;
        }
        assert(self.variants@.take(self.variants.len() as int) =~= self.variants@);
        fmt.close_block();
    }
}

proof fn lemma_variants_out_depth(st: FmtState, vs: Seq<Variant>)
    ensures
        variants_out(st, vs).depth == st.depth,
    decreases vs.len(),
{
    if vs.len() > 0 {
        lemma_variants_out_depth(st, vs.drop_last());
        crate::variant::lemma_variant_out_depth(variants_out(st, vs.drop_last()), vs.last());
    }
}

pub proof fn lemma_enum_out_depth(st: FmtState, m: EnumModel)
    ensures
        enum_out(st, m).depth == st.depth,
{
    let h = head_text(m.type_def, "enum"@, Seq::empty());
    crate::formatter::lemma_put_str_depth(st, h);
    let s1 = open_block_out(put_str(st, h));
    crate::formatter::lemma_block_depth(put_str(st, h));
    lemma_variants_out_depth(s1, m.variants);
    crate::formatter::lemma_block_depth(variants_out(s1, m.variants));
}

} // verus!
