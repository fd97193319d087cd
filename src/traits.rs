use vstd::prelude::*;

use crate::associated_type::AssociatedType;
use crate::bound::{bound_rhs_text, fmt_bound_rhs, Bound};
use crate::error::CodegenError;
use crate::formatter::{close_block_out, lemma_put_str_concat, open_block_out, put_str, FmtState, Formatter};
use crate::function::{bare_fn, fmt_fns, fns_height, fns_out, fns_run, fns_valid, Function, FunctionModel};
use crate::type_def::{generic_added, head_text, TypeDef, TypeDefModel};
use crate::types::{ty_generics, ty_name, Type};

verus! {

/// What a trait holds.
pub struct TraitModel {
    pub type_def: TypeDefModel,
    pub parents: Seq<Type>,
    pub associated_tys: Seq<AssociatedType>,
    pub fns: Seq<Function>,
}

/// A trait definition.
#[derive(Debug)]
pub struct Trait {
    type_def: TypeDef,
    parents: Vec<Type>,
    associated_tys: Vec<AssociatedType>,
    fns: Vec<Function>,
}

impl View for Trait {
    type V = TraitModel;

    closed spec fn view(&self) -> TraitModel {
        TraitModel {
            type_def: self.type_def@,
            parents: self.parents@,
            associated_tys: self.associated_tys@,
            fns: self.fns@,
        }
    }
}

/// One associated type declaration: `type Name;`, or `type Name: A + B;`.
pub open spec fn assoc_decl_text(a: AssociatedType) -> Seq<char> {
    "type "@ + a.0.name@ + (if a.0.bound@.len() == 0 {
        Seq::empty()
    } else {
        ": "@ + bound_rhs_text(a.0.bound@)
    }) + ";\n"@
}

/// Associated type declarations, one per line.
pub open spec fn assoc_decls_text(v: Seq<AssociatedType>) -> Seq<char>
    decreases v.len(),
{
    if v.len() == 0 {
        Seq::empty()
    } else {
        assoc_decls_text(v.drop_last()) + assoc_decl_text(v.last())
    }
}

/// What writing a trait does: its header, then a block of its associated
/// types and its functions, a blank line before each function but a
/// leading one.
pub open spec fn trait_out(st: FmtState, m: TraitModel) -> FmtState {
    let s1 = open_block_out(put_str(st, head_text(m.type_def, "trait"@, m.parents)));
    let s2 = put_str(s1, assoc_decls_text(m.associated_tys));
    close_block_out(fns_out(s2, m.fns, m.fns.len(), m.associated_tys.len() > 0))
}

/// What writing a trait does, whether or not it can be written: as
/// `trait_out`, except that the functions stop at the first that carries a
/// visibility, and the block is closed all the same.
pub open spec fn trait_run(st: FmtState, m: TraitModel) -> FmtState {
    let s1 = open_block_out(put_str(st, head_text(m.type_def, "trait"@, m.parents)));
    let s2 = put_str(s1, assoc_decls_text(m.associated_tys));
    close_block_out(fns_run(s2, m.fns, m.fns.len(), m.associated_tys.len() > 0, true))
}

/// A trait of the given name that holds nothing else.
pub open spec fn bare_trait(m: TraitModel, name: Seq<char>) -> bool {
    &&& ty_name(m.type_def.ty) == name
    &&& ty_generics(m.type_def.ty).len() == 0
    &&& m.type_def == TypeDefModel {
        ty: m.type_def.ty,
        vis: None,
        docs: None,
        derive: Seq::empty(),
        allow: Seq::empty(),
        repr: None,
        bounds: Seq::empty(),
        macros: Seq::empty(),
    }
    &&& m.parents.len() == 0
    &&& m.associated_tys.len() == 0
    &&& m.fns.len() == 0
}

impl Trait {
    /// A trait of the given name, empty.
    pub fn new(name: &str) -> (r: Trait)
        ensures
            bare_trait(r@, name@),
    {
        Trait {
            type_def: TypeDef::new(name),
            parents: Vec::new(),
            associated_tys: Vec::new(),
            fns: Vec::new(),
        }
    }

    /// The trait's type.
    pub fn ty(&self) -> (r: &Type)
        ensures
            *r == self@.type_def.ty,
    {
        self.type_def.ty()
    }

    /// Sets the visibility.
    pub fn vis(&mut self, vis: &str) -> (r: &mut Self)
        ensures
            r@ == (TraitModel { type_def: TypeDefModel { vis: Some(vis@), ..old(self)@.type_def }, ..old(self)@ }),
            *final(self) == *final(r),
    {
        self.type_def.vis(vis);
        self
    }

    /// Adds a generic to the trait's type; see `Type::generic`.
    pub fn generic(&mut self, name: &str) -> (r: Result<&mut Self, CodegenError>)
        ensures
            ty_name(old(self)@.type_def.ty).contains('<') ==> r is Err && r->Err_0
                == CodegenError::GenericOnBracketedName && *final(self) == *old(self),
            !ty_name(old(self)@.type_def.ty).contains('<') ==> r is Ok && r->Ok_0@ == (TraitModel {
                type_def: TypeDefModel { ty: r->Ok_0@.type_def.ty, ..old(self)@.type_def },
                ..old(self)@
            }) && generic_added(old(self)@.type_def.ty, r->Ok_0@.type_def.ty, name@)
                && *final(self) == *final(r->Ok_0),
    {
        match self.type_def.generic(name) {
            Ok(()) => Ok(self),
            Err(e) => Err(e),
        }
    }

    /// Adds a `where` bound of one type.
    pub fn bound(&mut self, name: &str, ty: Type) -> (r: &mut Self)
        ensures
            r@ == (TraitModel {
                type_def: TypeDefModel {
                    bounds: old(self)@.type_def.bounds.push(r@.type_def.bounds.last()),
                    ..old(self)@.type_def
                },
                ..old(self)@
            }),
            r@.type_def.bounds.last().name@ == name@,
            r@.type_def.bounds.last().bound@ == seq![ty],
            *final(self) == *final(r),
    {
        self.type_def.bound(name, ty);
        self
    }

    /// Adds a free macro line, such as `#[async_trait]`.
    pub fn add_macro(&mut self, line: &str) -> (r: &mut Self)
        ensures
            r@ == (TraitModel {
                type_def: TypeDefModel {
                    macros: old(self)@.type_def.macros.push(line@),
                    ..old(self)@.type_def
                },
                ..old(self)@
            }),
            *final(self) == *final(r),
    {
        self.type_def.add_macro(line);
        self
    }

    /// Adds a parent trait.
    pub fn parent(&mut self, ty: Type) -> (r: &mut Self)
        ensures
            r@ == (TraitModel { parents: old(self)@.parents.push(ty), ..old(self)@ }),
            *final(self) == *final(r),
    {
        self.parents.push(ty);
        self
    }

    /// Sets the documentation.
    pub fn doc(&mut self, docs: &str) -> (r: &mut Self)
        ensures
            r@ == (TraitModel {
                type_def: TypeDefModel { docs: r@.type_def.docs, ..old(self)@.type_def },
                ..old(self)@
            }),
            r@.type_def.docs is Some,
            crate::docs::doc_lines(r@.type_def.docs->0) == crate::docs::lines_of(docs@),
            *final(self) == *final(r),
    {
        self.type_def.doc(docs);
        self
    }

    /// Adds an associated type of the given name, without bounds, and hands
    /// it back.
    pub fn associated_type(&mut self, name: &str) -> (r: &mut AssociatedType)
        ensures
            r.0.name@ == name@,
            r.0.bound@.len() == 0,
            final(self)@ == (TraitModel {
                associated_tys: old(self)@.associated_tys.push(*final(r)),
                ..old(self)@
            }),
    {
        self.associated_tys.push(AssociatedType(Bound { name: String::from_str(name), bound: Vec::new() }));
        let n = self.associated_tys.len();
        proof {
            let pushed = self.associated_tys@;
            assert forall|x: AssociatedType| #[trigger] pushed.update(n - 1, x)
                == old(self)@.associated_tys.push(x) by {
                assert(pushed.update(n - 1, x) =~= old(self)@.associated_tys.push(x));
            }
        }
        &mut self.associated_tys[n - 1]
    }

    /// Pushes a new function of the given name, without a body, and hands
    /// it back.
    pub fn new_fn(&mut self, name: &str) -> (r: &mut Function)
        ensures
            r@.body is None,
            bare_fn(FunctionModel { body: Some(Seq::empty()), ..r@ }, name@),
            final(self)@ == (TraitModel { fns: old(self)@.fns.push(*final(r)), ..old(self)@ }),
    {
        let mut func = Function::new(name);
        func.clear_body();
        self.fns.push(func);
        let n = self.fns.len();
        proof {
            let pushed = self.fns@;
            assert forall|x: Function| #[trigger] pushed.update(n - 1, x) == old(self)@.fns.push(x) by {
                assert(pushed.update(n - 1, x) =~= old(self)@.fns.push(x));
            }
        }
        &mut self.fns[n - 1]
    }

    /// Pushes a function.
    pub fn push_fn(&mut self, item: Function) -> (r: &mut Self)
        ensures
            r@ == (TraitModel { fns: old(self)@.fns.push(item), ..old(self)@ }),
            *final(self) == *final(r),
    {
        self.fns.push(item);
        self
    }

    /// Writes the trait as `trait_out` says. A function of it that carries
    /// a visibility makes it fail, the depth as it was.
    pub fn fmt(&self, fmt: &mut Formatter) -> (r: Result<(), CodegenError>)
        requires
            old(fmt)@.depth + 1 + fns_height(self@.fns) <= usize::MAX,
        ensures
            final(fmt)@.depth == old(fmt)@.depth,
            r is Ok <==> fns_valid(self@.fns, true),
            r is Err ==> r == Err::<(), CodegenError>(CodegenError::VisibilityInTrait),
            r is Ok ==> final(fmt)@ == trait_out(old(fmt)@, self@),
            final(fmt)@ == trait_run(old(fmt)@, self@),
    {
        self.type_def.fmt_head("trait", &self.parents, fmt);
        fmt.open_block();
        let ghost s1 = fmt@;
        let mut i: usize = 0;
        while i < self.associated_tys.len()
            invariant
                i <= self.associated_tys.len(),
                fmt@ == put_str(s1, assoc_decls_text(self.associated_tys@.take(i as int))),
            decreases self.associated_tys.len() - i,
        {
            let ghost prev = assoc_decls_text(self.associated_tys@.take(i as int));
            let a = &self.associated_tys[i].0;
            fmt.write("type ");
            fmt.write_string(&a.name);
            proof {
                lemma_put_str_concat(s1, prev, "type "@);
                lemma_put_str_concat(s1, prev + "type "@, a.name@);
            }
            let ghost mid = prev + "type "@ + a.name@;
            if a.bound.len() > 0 {
                fmt.write(": ");
                fmt_bound_rhs(&a.bound, fmt);
                proof {
                    lemma_put_str_concat(s1, mid, ": "@);
                    lemma_put_str_concat(s1, mid + ": "@, bound_rhs_text(a.bound@));
                }
            }
            let ghost bnd = if a.bound@.len() == 0 {
                Seq::<char>::empty()
            } else {
                ": "@ + bound_rhs_text(a.bound@)
            };
            assert(fmt@ == put_str(s1, mid + bnd)) by {
                if a.bound@.len() == 0 {
                    assert(mid + bnd =~= mid);
                } else {
                    assert(mid + ": "@ + bound_rhs_text(a.bound@) =~= mid + bnd);
                }
            }
            fmt.write(";\n");
            proof {
                lemma_put_str_concat(s1, mid + bnd, ";\n"@);
                assert(self.associated_tys@.take(i + 1).drop_last() =~= self.associated_tys@.take(i as int));
                assert(mid + bnd + ";\n"@ =~= prev + assoc_decl_text(self.associated_tys@[i as int]));
            }
            i = i + 1;
        }
        assert(self.associated_tys@.take(self.associated_tys.len() as int) =~= self.associated_tys@);
        proof {
            crate::formatter::lemma_put_str_depth(s1, assoc_decls_text(self@.associated_tys));
        }
        let r = fmt_fns(&self.fns, self.associated_tys.len() > 0, true, fmt);
        fmt.close_block();
        r
    }
}

pub proof fn lemma_trait_out_depth(st: FmtState, m: TraitModel)
    ensures
        trait_out(st, m).depth == st.depth,
{
    let h = put_str(st, head_text(m.type_def, "trait"@, m.parents));
    crate::formatter::lemma_put_str_depth(st, head_text(m.type_def, "trait"@, m.parents));
    crate::formatter::lemma_block_depth(h);
    let s1 = open_block_out(h);
    crate::formatter::lemma_put_str_depth(s1, assoc_decls_text(m.associated_tys));
    let s2 = put_str(s1, assoc_decls_text(m.associated_tys));
    crate::function::lemma_fns_out_depth(s2, m.fns, m.fns.len(), m.associated_tys.len() > 0);
    crate::formatter::lemma_block_depth(fns_out(s2, m.fns, m.fns.len(), m.associated_tys.len() > 0));
}

} // verus!
