use vstd::prelude::*;

use crate::bound::{bounds_text, fmt_bounds, Bound};
use crate::docs::{docs_text, Docs};
use crate::formatter::{
    fmt_strs_joined, fmt_wrapped_lines, lemma_put_str_concat, lemma_put_str_depth, put_str, strs,
    strs_joined, wrapped_lines, Formatter,
};
use crate::error::CodegenError;
use crate::types::{fmt_types, ty_generics, ty_name, type_text, types_joined, Type};

verus! {

/// The characters of an optional string.
pub open spec fn opt_str(o: Option<String>) -> Option<Seq<char>> {
    match o {
        Some(s) => Some(s@),
        None => None,
    }
}

/// `after` is `before` with one more generic, a bare type named `name`.
pub open spec fn generic_added(before: Type, after: Type, name: Seq<char>) -> bool {
    &&& ty_name(after) == ty_name(before)
    &&& ty_generics(after).len() == ty_generics(before).len() + 1
    &&& ty_generics(after).drop_last() == ty_generics(before)
    &&& ty_name(ty_generics(after).last()) == name
    &&& ty_generics(ty_generics(after).last()).len() == 0
}

/// What a type definition holds.
pub struct TypeDefModel {
    pub ty: Type,
    pub vis: Option<Seq<char>>,
    pub docs: Option<Docs>,
    pub derive: Seq<Seq<char>>,
    pub allow: Seq<Seq<char>>,
    pub repr: Option<Seq<char>>,
    pub bounds: Seq<Bound>,
    pub macros: Seq<Seq<char>>,
}

/// The header shared by structs, enums and traits.
#[derive(Debug)]
pub struct TypeDef {
    /// The type being defined.
    pub ty: Type,
    vis: Option<String>,
    docs: Option<Docs>,
    derive: Vec<String>,
    allow: Vec<String>,
    repr: Option<String>,
    bounds: Vec<Bound>,
    macros: Vec<String>,
}

impl View for TypeDef {
    type V = TypeDefModel;

    closed spec fn view(&self) -> TypeDefModel {
        TypeDefModel {
            ty: self.ty,
            vis: opt_str(self.vis),
            docs: self.docs,
            derive: strs(self.derive@),
            allow: strs(self.allow@),
            repr: opt_str(self.repr),
            bounds: self.bounds@,
            macros: strs(self.macros@),
        }
    }
}

/// `text` when present, else nothing.
pub open spec fn opt_text(o: Option<Seq<char>>, pre: Seq<char>, post: Seq<char>) -> Seq<char> {
    match o {
        Some(t) => pre + t + post,
        None => Seq::empty(),
    }
}

/// A visibility followed by a space; nothing when there is none.
pub open spec fn vis_text(vis: Option<Seq<char>>) -> Seq<char> {
    match vis {
        Some(v) => v + " "@,
        None => Seq::empty(),
    }
}

/// The derive attribute: the names joined by `, `; nothing for none.
pub open spec fn derive_text(names: Seq<Seq<char>>) -> Seq<char> {
    if names.len() == 0 {
        Seq::empty()
    } else {
        "#[derive("@ + strs_joined(names, ", "@) + ")]\n"@
    }
}

/// The parent list of a trait: `: A + B`; nothing for none.
pub open spec fn parents_text(ps: Seq<Type>) -> Seq<char> {
    if ps.len() == 0 {
        Seq::empty()
    } else {
        ": "@ + types_joined(ps, " + "@)
    }
}

/// The attribute lines of a header, in their fixed order: documentation,
/// lint allowances, derives, representation, then free macro lines.
pub open spec fn head_attrs_text(m: TypeDefModel) -> Seq<char> {
    (match m.docs {
        Some(d) => docs_text(d),
        None => Seq::empty(),
    }) + wrapped_lines(m.allow, "#[allow("@, ")]\n"@) + derive_text(m.derive) + opt_text(
        m.repr,
        "#[repr("@,
        ")]\n"@,
    ) + wrapped_lines(m.macros, ""@, "\n"@)
}

/// How a header reads: its attribute lines, the visibility, the keyword,
/// the type, the parents and the `where` clause.
pub open spec fn head_text(m: TypeDefModel, keyword: Seq<char>, parents: Seq<Type>) -> Seq<char> {
    head_attrs_text(m) + vis_text(m.vis) + keyword + " "@ + type_text(m.ty)
        + parents_text(parents) + bounds_text(m.bounds)
}

impl TypeDef {
    /// A header for the type of the given name, with nothing else set.
    pub fn new(name: &str) -> (r: TypeDef)
        ensures
            r@ == (TypeDefModel {
                ty: r@.ty,
                vis: None,
                docs: None,
                derive: Seq::empty(),
                allow: Seq::empty(),
                repr: None,
                bounds: Seq::empty(),
                macros: Seq::empty(),
            }),
            crate::types::ty_name(r@.ty) == name@,
            crate::types::ty_generics(r@.ty).len() == 0,
    {
        let r = TypeDef {
            ty: Type::new(name),
            vis: None,
            docs: None,
            derive: Vec::new(),
            allow: Vec::new(),
            repr: None,
            bounds: Vec::new(),
            macros: Vec::new(),
        };
        assert(r@.derive =~= Seq::empty());
        assert(r@.allow =~= Seq::empty());
        assert(r@.macros =~= Seq::empty());
        r
    }

    /// The type being defined.
    pub fn ty(&self) -> (r: &Type)
        ensures
            *r == self@.ty,
    {
        &self.ty
    }

    /// Adds a generic of the given name to the type; see `Type::generic`.
    pub fn generic(&mut self, name: &str) -> (r: Result<(), CodegenError>)
        ensures
            ty_name(old(self)@.ty).contains('<') ==> r == Err::<(), CodegenError>(
                CodegenError::GenericOnBracketedName,
            ) && *final(self) == *old(self),
            !ty_name(old(self)@.ty).contains('<') ==> r is Ok && final(self)@ == (TypeDefModel {
                ty: final(self)@.ty,
                ..old(self)@
            }) && generic_added(old(self)@.ty, final(self)@.ty, name@),
    {
        match self.ty.generic(Type::new(name)) {
            Ok(_) => {
                assert(ty_generics(self@.ty).drop_last() =~= ty_generics(old(self)@.ty));
                Ok(())
            },
            Err(e) => Err(e),
        }
    }

    /// Sets the visibility.
    pub fn vis(&mut self, vis: &str)
        ensures
            final(self)@ == (TypeDefModel { vis: Some(vis@), ..old(self)@ }),
    {
        self.vis = Some(String::from_str(vis));
    }

    /// Adds a `where` bound of one type.
    pub fn bound(&mut self, name: &str, ty: Type)
        ensures
            final(self)@ == (TypeDefModel {
                bounds: old(self)@.bounds.push(final(self)@.bounds.last()),
                ..old(self)@
            }),
            final(self)@.bounds.last().name@ == name@,
            final(self)@.bounds.last().bound@ == seq![ty],
    {
        self.bounds.push(Bound { name: String::from_str(name), bound: vec![ty] });
    }

    /// Adds a free macro line, such as `#[async_trait]`.
    pub fn add_macro(&mut self, line: &str)
        ensures
            final(self)@ == (TypeDefModel { macros: old(self)@.macros.push(line@), ..old(self)@ }),
    {
        let ghost prev = self.macros@;
        self.macros.push(String::from_str(line));
        assert(strs(self.macros@) =~= strs(prev).push(line@));
    }

    /// Sets the documentation.
    pub fn doc(&mut self, docs: &str)
        ensures
            final(self)@ == (TypeDefModel { docs: final(self)@.docs, ..old(self)@ }),
            final(self)@.docs is Some,
            crate::docs::doc_lines(final(self)@.docs->0) == crate::docs::lines_of(docs@),
    {
        self.docs = Some(Docs::new(docs));
    }

    /// Adds a name to derive.
    pub fn derive(&mut self, name: &str)
        ensures
            final(self)@ == (TypeDefModel { derive: old(self)@.derive.push(name@), ..old(self)@ }),
    {
        let ghost prev = self.derive@;
        self.derive.push(String::from_str(name));
        assert(strs(self.derive@) =~= strs(prev).push(name@));
    }

    /// Adds a lint to allow.
    pub fn allow(&mut self, allow: &str)
        ensures
            final(self)@ == (TypeDefModel { allow: old(self)@.allow.push(allow@), ..old(self)@ }),
    {
        let ghost prev = self.allow@;
        self.allow.push(String::from_str(allow));
        assert(strs(self.allow@) =~= strs(prev).push(allow@));
    }

    /// Sets the representation.
    pub fn repr(&mut self, repr: &str)
        ensures
            final(self)@ == (TypeDefModel { repr: Some(repr@), ..old(self)@ }),
    {
        self.repr = Some(String::from_str(repr));
    }

    /// Writes the header as `head_text` reads.
    pub fn fmt_head(&self, keyword: &str, parents: &Vec<Type>, fmt: &mut Formatter)
        ensures
            final(fmt)@ == put_str(old(fmt)@, head_text(self@, keyword@, parents@)),
            final(fmt)@.depth == old(fmt)@.depth,
    {
        let ghost st = fmt@;
        self.fmt_attrs(fmt);
        let ghost mut acc = head_attrs_text(self@);
        if let Some(vis) = &self.vis {
            fmt.write_string(vis);
            fmt.write(" ");
            proof {
                lemma_put_str_concat(st, acc, vis@);
                lemma_put_str_concat(st, acc + vis@, " "@);
            }
        }
        proof {
            assert(acc + vis_text(self@.vis) =~= (match self@.vis {
                Some(v) => acc + v + " "@,
                None => acc,
            }));
            acc = acc + vis_text(self@.vis);
        }
        fmt.write(keyword);
        fmt.write(" ");
        self.ty.fmt(fmt);
        proof {
            lemma_put_str_concat(st, acc, keyword@);
            lemma_put_str_concat(st, acc + keyword@, " "@);
            lemma_put_str_concat(st, acc + keyword@ + " "@, type_text(self.ty));
            acc = acc + keyword@ + " "@ + type_text(self.ty);
        }
        if parents.len() > 0 {
            fmt.write(": ");
            fmt_types(parents, " + ", fmt);
            proof {
                lemma_put_str_concat(st, acc, ": "@);
                lemma_put_str_concat(st, acc + ": "@, types_joined(parents@, " + "@));
                assert(acc + ": "@ + types_joined(parents@, " + "@) =~= acc + parents_text(parents@));
            }
        } else {
            assert(acc + parents_text(parents@) =~= acc);
        }
        proof {
            acc = acc + parents_text(parents@);
        }
        fmt_bounds(&self.bounds, fmt);
        proof {
            lemma_put_str_concat(st, acc, bounds_text(self@.bounds));
            lemma_put_str_depth(st, head_text(self@, keyword@, parents@));
        }
    }

    fn fmt_attrs(&self, fmt: &mut Formatter)
        ensures
            final(fmt)@ == put_str(old(fmt)@, head_attrs_text(self@)),
    {
        let ghost st = fmt@;
        if let Some(docs) = &self.docs {
            docs.fmt(fmt);
        }
        let ghost d = match self@.docs {
            Some(d) => docs_text(d),
            None => Seq::empty(),
        };
        let ghost al = wrapped_lines(self@.allow, "#[allow("@, ")]\n"@);
        let ghost de = derive_text(self@.derive);
        let ghost re = opt_text(self@.repr, "#[repr("@, ")]\n"@);
        let ghost ma = wrapped_lines(self@.macros, ""@, "\n"@);
        assert(fmt@ == put_str(st, d));
        fmt_wrapped_lines(&self.allow, "#[allow(", ")]\n", fmt);
        proof {
            lemma_put_str_concat(st, d, al);
        }
        self.fmt_derive(fmt);
        proof {
            lemma_put_str_concat(st, d + al, de);
        }
        if let Some(repr) = &self.repr {
            fmt.write("#[repr(");
            fmt.write_string(repr);
            fmt.write(")]\n");
            proof {
                let a = d + al + de;
                lemma_put_str_concat(st, a, "#[repr("@);
                lemma_put_str_concat(st, a + "#[repr("@, repr@);
                lemma_put_str_concat(st, a + "#[repr("@ + repr@, ")]\n"@);
                assert(a + "#[repr("@ + repr@ + ")]\n"@ =~= a + re);
            }
        } else {
            assert(d + al + de + re =~= d + al + de);
        }
        fmt_wrapped_lines(&self.macros, "", "\n", fmt);
        proof {
            lemma_put_str_concat(st, d + al + de + re, ma);
        }
    }

    fn fmt_derive(&self, fmt: &mut Formatter)
        ensures
            final(fmt)@ == put_str(old(fmt)@, derive_text(self@.derive)),
    {
        if self.derive.len() > 0 {
            fmt.write("#[derive(");
            fmt_strs_joined(&self.derive, ", ", fmt);
            fmt.write(")]\n");
            proof {
                let mid = strs_joined(self@.derive, ", "@);
                lemma_put_str_concat(old(fmt)@, "#[derive("@, mid);
                lemma_put_str_concat(old(fmt)@, "#[derive("@ + mid, ")]\n"@);
            }
        }
    }
}

} // verus!
