use vstd::prelude::*;

use crate::bound::{bounds_text, fmt_bounds, fmt_generics, generics_text, Bound};
use crate::error::CodegenError;
use crate::field::Field;
use crate::formatter::{
    close_block_out, fmt_wrapped_lines, lemma_put_str_concat, open_block_out, put_str, strs,
    wrapped_lines, FmtState, Formatter,
};
use crate::function::{bare_fn, fmt_fns, fns_height, fns_out, fns_run, fns_valid, Function};
use crate::types::{ty_name, type_text, Type};

verus! {

/// What an impl block holds.
pub struct ImplModel {
    pub target: Type,
    pub generics: Seq<Seq<char>>,
    pub impl_trait: Option<Type>,
    pub assoc_tys: Seq<Field>,
    pub bounds: Seq<Bound>,
    pub fns: Seq<Function>,
    pub macros: Seq<Seq<char>>,
}

/// An impl block.
#[derive(Debug)]
pub struct Impl {
    target: Type,
    generics: Vec<String>,
    impl_trait: Option<Type>,
    assoc_tys: Vec<Field>,
    bounds: Vec<Bound>,
    fns: Vec<Function>,
    macros: Vec<String>,
}

impl View for Impl {
    type V = ImplModel;

    closed spec fn view(&self) -> ImplModel {
        ImplModel {
            target: self.target,
            generics: strs(self.generics@),
            impl_trait: self.impl_trait,
            assoc_tys: self.assoc_tys@,
            bounds: self.bounds@,
            fns: self.fns@,
            macros: strs(self.macros@),
        }
    }
}

/// The header of an impl block: its macro lines, `impl` and its generics,
/// the trait and `for` if any, the target type and the `where` clause.
pub open spec fn impl_head_text(m: ImplModel) -> Seq<char> {
    wrapped_lines(m.macros, ""@, "\n"@) + "impl"@ + generics_text(m.generics) + (match m.impl_trait {
        Some(t) => " "@ + type_text(t) + " for"@,
        None => Seq::empty(),
    }) + " "@ + type_text(m.target) + bounds_text(m.bounds)
}

/// One associated type definition: `type Name = Type;`.
pub open spec fn assoc_def_text(f: Field) -> Seq<char> {
    "type "@ + f.name@ + " = "@ + type_text(f.ty) + ";\n"@
}

/// Associated type definitions, one per line.
pub open spec fn assoc_defs_text(v: Seq<Field>) -> Seq<char>
    decreases v.len(),
{
    if v.len() == 0 {
        Seq::empty()
    } else {
        assoc_defs_text(v.drop_last()) + assoc_def_text(v.last())
    }
}

/// What writing an impl block does: its header, then a block of its
/// associated types and its functions, a blank line before each function
/// but a leading one.
pub open spec fn impl_out(st: FmtState, m: ImplModel) -> FmtState {
    let s1 = open_block_out(put_str(st, impl_head_text(m)));
    let s2 = put_str(s1, assoc_defs_text(m.assoc_tys));
    close_block_out(fns_out(s2, m.fns, m.fns.len(), m.assoc_tys.len() > 0))
}

/// What writing an impl block does, whether or not it can be written: as
/// `impl_out`, except that the functions stop at the first without a body,
/// and the block is closed all the same.
pub open spec fn impl_run(st: FmtState, m: ImplModel) -> FmtState {
    let s1 = open_block_out(put_str(st, impl_head_text(m)));
    let s2 = put_str(s1, assoc_defs_text(m.assoc_tys));
    close_block_out(fns_run(s2, m.fns, m.fns.len(), m.assoc_tys.len() > 0, false))
}

impl Impl {
    /// An impl block for `target`, empty.
    pub fn new(target: Type) -> (r: Impl)
        ensures
            r@ == (ImplModel {
                target,
                generics: Seq::empty(),
                impl_trait: None,
                assoc_tys: Seq::empty(),
                bounds: Seq::empty(),
                fns: Seq::empty(),
                macros: Seq::empty(),
            }),
    {
        let r = Impl {
            target,
            generics: Vec::new(),
            impl_trait: None,
            assoc_tys: Vec::new(),
            bounds: Vec::new(),
            fns: Vec::new(),
            macros: Vec::new(),
        };
        assert(r@.generics =~= Seq::empty());
        assert(r@.macros =~= Seq::empty());
        assert(r@.assoc_tys =~= Seq::empty());
        assert(r@.bounds =~= Seq::empty());
        assert(r@.fns =~= Seq::empty());
        r
    }

    /// Adds a generic of the block itself (`impl<T>`).
    pub fn generic(&mut self, name: &str) -> (r: &mut Self)
        ensures
            r@ == (ImplModel { generics: old(self)@.generics.push(name@), ..old(self)@ }),
            *final(self) == *final(r),
    {
        let ghost prev = self.generics@;
        self.generics.push(String::from_str(name));
        assert(strs(self.generics@) =~= strs(prev).push(name@));
        self
    }

    /// Adds a generic to the target type; see `Type::generic`.
    pub fn target_generic(&mut self, ty: Type) -> (r: Result<&mut Self, CodegenError>)
        ensures
            ty_name(old(self)@.target).contains('<') ==> r is Err && r->Err_0
                == CodegenError::GenericOnBracketedName && *final(self) == *old(self),
            !ty_name(old(self)@.target).contains('<') ==> r is Ok && r->Ok_0@ == (ImplModel {
                target: r->Ok_0@.target,
                ..old(self)@
            }) && ty_name(r->Ok_0@.target) == ty_name(old(self)@.target)
                && crate::types::ty_generics(r->Ok_0@.target) == crate::types::ty_generics(
                old(self)@.target,
            ).push(ty) && *final(self) == *final(r->Ok_0),
    {
        match self.target.generic(ty) {
            Ok(_) => Ok(self),
            Err(e) => Err(e),
        }
    }

    /// Sets the trait being implemented.
    pub fn impl_trait(&mut self, ty: Type) -> (r: &mut Self)
        ensures
            r@ == (ImplModel { impl_trait: Some(ty), ..old(self)@ }),
            *final(self) == *final(r),
    {
        self.impl_trait = Some(ty);
        self
    }

    /// Adds a macro line written before the block, such as
    /// `#[async_trait]`.
    pub fn add_macro(&mut self, line: &str) -> (r: &mut Self)
        ensures
            r@ == (ImplModel { macros: old(self)@.macros.push(line@), ..old(self)@ }),
            *final(self) == *final(r),
    {
        let ghost prev = self.macros@;
        self.macros.push(String::from_str(line));
        assert(strs(self.macros@) =~= strs(prev).push(line@));
        self
    }

    /// Sets an associated type.
    pub fn associate_type(&mut self, name: &str, ty: Type) -> (r: &mut Self)
        ensures
            r@ == (ImplModel { assoc_tys: old(self)@.assoc_tys.push(r@.assoc_tys.last()), ..old(self)@ }),
            r@.assoc_tys.last().name@ == name@,
            r@.assoc_tys.last().ty == ty,
            r@.assoc_tys.last().documentation@.len() == 0,
            r@.assoc_tys.last().annotation@.len() == 0,
            *final(self) == *final(r),
    {
        self.assoc_tys.push(Field::new(name, ty));
        assert(self@.assoc_tys =~= old(self)@.assoc_tys.push(self@.assoc_tys.last()));
        self
    }

    /// Adds a `where` bound of one type.
    pub fn bound(&mut self, name: &str, ty: Type) -> (r: &mut Self)
        ensures
            r@ == (ImplModel { bounds: old(self)@.bounds.push(r@.bounds.last()), ..old(self)@ }),
            r@.bounds.last().name@ == name@,
            r@.bounds.last().bound@ == seq![ty],
            *final(self) == *final(r),
    {
        self.bounds.push(Bound { name: String::from_str(name), bound: vec![ty] });
        assert(self@.bounds =~= old(self)@.bounds.push(self@.bounds.last()));
        self
    }

    /// Pushes a new function of the given name and hands it back.
    pub fn new_fn(&mut self, name: &str) -> (r: &mut Function)
        ensures
            bare_fn(r@, name@),
            final(self)@ == (ImplModel { fns: old(self)@.fns.push(*final(r)), ..old(self)@ }),
    {
        self.fns.push(Function::new(name));
        let n = self.fns.len();
        proof {
            let pushed = self.fns@;
            assert forall|x: Function| #[trigger] pushed.update(n - 1, x) == old(self)@.fns.push(x) by {
                assert(pushed.update(n - 1, x) =~= old(self)@.fns.push(x));
            }
        }
        &mut self.fns[n - 1]
    }

    /// Pushes a function.
    pub fn push_fn(&mut self, item: Function) -> (r: &mut Self)
        ensures
            r@ == (ImplModel { fns: old(self)@.fns.push(item), ..old(self)@ }),
            *final(self) == *final(r),
    {
        self.fns.push(item);
        self
    }

    /// Writes the impl block as `impl_out` says. A function of it without a
    /// body makes it fail, the depth as it was.
    pub fn fmt(&self, fmt: &mut Formatter) -> (r: Result<(), CodegenError>)
        requires
            old(fmt)@.depth + 1 + fns_height(self@.fns) <= usize::MAX,
        ensures
            final(fmt)@.depth == old(fmt)@.depth,
            r is Ok <==> fns_valid(self@.fns, false),
            r is Err ==> r == Err::<(), CodegenError>(CodegenError::MissingBody),
            r is Ok ==> final(fmt)@ == impl_out(old(fmt)@, self@),
            final(fmt)@ == impl_run(old(fmt)@, self@),
    {
        self.fmt_head(fmt);
        fmt.open_block();
        let ghost s1 = fmt@;
        let mut i: usize = 0;
        while i < self.assoc_tys.len()
            invariant
                i <= self.assoc_tys.len(),
                fmt@ == put_str(s1, assoc_defs_text(self.assoc_tys@.take(i as int))),
            decreases self.assoc_tys.len() - i,
        {
            let ghost prev = assoc_defs_text(self.assoc_tys@.take(i as int));
            let a = &self.assoc_tys[i];
            fmt.write("type ");
            fmt.write_string(&a.name);
            fmt.write(" = ");
            a.ty.fmt(fmt);
            fmt.write(";\n");
            proof {
                lemma_put_str_concat(s1, prev, "type "@);
                lemma_put_str_concat(s1, prev + "type "@, a.name@);
                lemma_put_str_concat(s1, prev + "type "@ + a.name@, " = "@);
                lemma_put_str_concat(s1, prev + "type "@ + a.name@ + " = "@, type_text(a.ty));
                lemma_put_str_concat(s1, prev + "type "@ + a.name@ + " = "@ + type_text(a.ty), ";\n"@);
                assert(self.assoc_tys@.take(i + 1).drop_last() =~= self.assoc_tys@.take(i as int));
                assert(prev + "type "@ + a.name@ + " = "@ + type_text(a.ty) + ";\n"@ =~= prev
                    + assoc_def_text(*a));
            }
            i = i + 1;
        }
        assert(self.assoc_tys@.take(self.assoc_tys.len() as int) =~= self.assoc_tys@);
        proof {
            crate::formatter::lemma_put_str_depth(s1, assoc_defs_text(self@.assoc_tys));
        }
        let r = fmt_fns(&self.fns, self.assoc_tys.len() > 0, false, fmt);
        fmt.close_block();
        r
    }

    fn fmt_head(&self, fmt: &mut Formatter)
        ensures
            final(fmt)@ == put_str(old(fmt)@, impl_head_text(self@)),
            final(fmt)@.depth == old(fmt)@.depth,
    {
        let ghost st = fmt@;
        fmt_wrapped_lines(&self.macros, "", "\n", fmt);
        fmt.write("impl");
        fmt_generics(&self.generics, fmt);
        let ghost mut acc = wrapped_lines(self@.macros, ""@, "\n"@) + "impl"@ + generics_text(self@.generics);
        proof {
            let m = wrapped_lines(self@.macros, ""@, "\n"@);
            lemma_put_str_concat(st, m, "impl"@);
            lemma_put_str_concat(st, m + "impl"@, generics_text(self@.generics));
        }
        if let Some(t) = &self.impl_trait {
            fmt.write(" ");
            t.fmt(fmt);
            fmt.write(" for");
            proof {
                lemma_put_str_concat(st, acc, " "@);
                lemma_put_str_concat(st, acc + " "@, type_text(*t));
                lemma_put_str_concat(st, acc + " "@ + type_text(*t), " for"@);
                assert(acc + " "@ + type_text(*t) + " for"@ =~= acc + (" "@ + type_text(*t) + " for"@));
            }
        } else {
            assert(acc + Seq::<char>::empty() =~= acc);
        }
        proof {
            acc = acc + (match self@.impl_trait {
                Some(t) => " "@ + type_text(t) + " for"@,
                None => Seq::empty(),
            });
        }
        fmt.write(" ");
        self.target.fmt(fmt);
        fmt_bounds(&self.bounds, fmt);
        proof {
            lemma_put_str_concat(st, acc, " "@);
            lemma_put_str_concat(st, acc + " "@, type_text(self.target));
            lemma_put_str_concat(st, acc + " "@ + type_text(self.target), bounds_text(self.bounds@));
            crate::formatter::lemma_put_str_depth(st, impl_head_text(self@));
        }
    }
}

pub proof fn lemma_impl_out_depth(st: FmtState, m: ImplModel)
    ensures
        impl_out(st, m).depth == st.depth,
{
    let h = put_str(st, impl_head_text(m));
    crate::formatter::lemma_put_str_depth(st, impl_head_text(m));
    crate::formatter::lemma_block_depth(h);
    let s1 = open_block_out(h);
    crate::formatter::lemma_put_str_depth(s1, assoc_defs_text(m.assoc_tys));
    let s2 = put_str(s1, assoc_defs_text(m.assoc_tys));
    crate::function::lemma_fns_out_depth(s2, m.fns, m.fns.len(), m.assoc_tys.len() > 0);
    crate::formatter::lemma_block_depth(fns_out(s2, m.fns, m.fns.len(), m.assoc_tys.len() > 0));
}

} // verus!
