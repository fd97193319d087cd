use vstd::prelude::*;

use crate::block::{bodies_height, bodies_out, fmt_bodies, Block, Body};
use crate::bound::{bounds_text, fmt_bounds, generics_text, fmt_generics, Bound};
use crate::docs::{docs_text, Docs};
use crate::error::CodegenError;
use crate::field::Field;
use crate::formatter::{
    close_block_out, fmt_wrapped_lines, lemma_put_str_concat, open_block_out, put_str, strs,
    wrapped_lines, FmtState, Formatter,
};
use crate::type_def::{opt_str, opt_text, vis_text};
use crate::types::{type_text, Type};

verus! {

/// What a function holds.
pub struct FunctionModel {
    pub name: Seq<char>,
    pub docs: Option<Docs>,
    pub allow: Option<Seq<char>>,
    pub vis: Option<Seq<char>>,
    pub generics: Seq<Seq<char>>,
    pub arg_self: Option<Seq<char>>,
    pub args: Seq<Field>,
    pub ret: Option<Type>,
    pub bounds: Seq<Bound>,
    pub body: Option<Seq<Body>>,
    pub attributes: Seq<Seq<char>>,
    pub extern_abi: Option<Seq<char>>,
    pub is_async: bool,
}

/// A function definition.
#[derive(Debug)]
pub struct Function {
    name: String,
    docs: Option<Docs>,
    allow: Option<String>,
    vis: Option<String>,
    generics: Vec<String>,
    arg_self: Option<String>,
    args: Vec<Field>,
    ret: Option<Type>,
    bounds: Vec<Bound>,
    /// The body: `None` for a trait function without a default body.
    pub body: Option<Vec<Body>>,
    attributes: Vec<String>,
    extern_abi: Option<String>,
    is_async: bool,
}

/// The lines and blocks of an optional body.
pub open spec fn opt_bodies(b: Option<Vec<Body>>) -> Option<Seq<Body>> {
    match b {
        Some(v) => Some(v@),
        None => None,
    }
}

impl View for Function {
    type V = FunctionModel;

    closed spec fn view(&self) -> FunctionModel {
        FunctionModel {
            name: self.name@,
            docs: self.docs,
            allow: opt_str(self.allow),
            vis: opt_str(self.vis),
            generics: strs(self.generics@),
            arg_self: opt_str(self.arg_self),
            args: self.args@,
            ret: self.ret,
            bounds: self.bounds@,
            body: opt_bodies(self.body),
            attributes: strs(self.attributes@),
            extern_abi: opt_str(self.extern_abi),
            is_async: self.is_async,
        }
    }
}

/// The first `n` arguments, each `name: Type`, separated by `, `; a comma
/// also comes before the first one when the receiver precedes it.
pub open spec fn arg_list_text(args: Seq<Field>, n: nat, has_self: bool) -> Seq<char>
    decreases n,
{
    if n == 0 {
        Seq::empty()
    } else {
        let sep = if n > 1 || has_self { ", "@ } else { Seq::empty() };
        arg_list_text(args, (n - 1) as nat, has_self) + sep + args[n - 1].name@ + ": "@
            + type_text(args[n - 1].ty)
    }
}

/// The receiver, if any, then the arguments.
pub open spec fn params_text(m: FunctionModel) -> Seq<char> {
    (match m.arg_self {
        Some(s) => s,
        None => Seq::empty(),
    }) + arg_list_text(m.args, m.args.len(), m.arg_self is Some)
}

/// The attribute lines of a function: documentation, lint allowance and
/// attributes.
pub open spec fn fn_attrs_text(m: FunctionModel) -> Seq<char> {
    (match m.docs {
        Some(d) => docs_text(d),
        None => Seq::empty(),
    }) + opt_text(m.allow, "#[allow("@, ")]\n"@) + wrapped_lines(m.attributes, "#["@, "]\n"@)
}

/// The signature of a function, from the visibility to the `where` clause.
pub open spec fn fn_sig_text(m: FunctionModel) -> Seq<char> {
    vis_text(m.vis) + opt_text(m.extern_abi, "extern \""@, "\" "@) + (if m.is_async {
        "async "@
    } else {
        Seq::empty()
    }) + "fn "@ + m.name + generics_text(m.generics) + "("@ + params_text(m) + ")"@ + (match m.ret {
        Some(t) => " -> "@ + type_text(t),
        None => Seq::empty(),
    }) + bounds_text(m.bounds)
}

/// A function can be written: in a trait it has no visibility, elsewhere
/// it has a body.
pub open spec fn fn_valid(m: FunctionModel, is_trait: bool) -> bool {
    if is_trait {
        m.vis is None
    } else {
        m.body is Some
    }
}

/// What writing a valid function does: its attributes and signature, then
/// its body in a block, or `;` where it has none.
pub open spec fn fn_out(st: FmtState, m: FunctionModel) -> FmtState {
    let s1 = put_str(st, fn_attrs_text(m) + fn_sig_text(m));
    match m.body {
        Some(bs) => close_block_out(bodies_out(open_block_out(s1), bs)),
        None => put_str(s1, ";\n"@),
    }
}

/// How deep a function nests.
pub open spec fn fn_height(m: FunctionModel) -> nat {
    match m.body {
        Some(bs) => 1 + bodies_height(bs),
        None => 0,
    }
}

/// A function of the given name with an empty body and nothing else.
pub open spec fn bare_fn(m: FunctionModel, name: Seq<char>) -> bool {
    m == FunctionModel {
        name,
        docs: None,
        allow: None,
        vis: None,
        generics: Seq::empty(),
        arg_self: None,
        args: Seq::empty(),
        ret: None,
        bounds: Seq::empty(),
        body: Some(Seq::empty()),
        attributes: Seq::empty(),
        extern_abi: None,
        is_async: false,
    }
}

impl Function {
    /// A function of the given name with an empty body.
    pub fn new(name: &str) -> (r: Function)
        ensures
            bare_fn(r@, name@),
    {
        let r = Function {
            name: String::from_str(name),
            docs: None,
            allow: None,
            vis: None,
            generics: Vec::new(),
            arg_self: None,
            args: Vec::new(),
            ret: None,
            bounds: Vec::new(),
            body: Some(Vec::new()),
            attributes: Vec::new(),
            extern_abi: None,
            is_async: false,
        };
        assert(r@.generics =~= Seq::empty());
        assert(r@.attributes =~= Seq::empty());
        assert(r@.body->0 =~= Seq::empty());
        assert(r@.args =~= Seq::empty());
        assert(r@.bounds =~= Seq::empty());
        r
    }

    /// Removes the body, as for a trait function without a default one.
    pub(crate) fn clear_body(&mut self)
        ensures
            final(self)@ == (FunctionModel { body: None, ..old(self)@ }),
    {
        self.body = None;
    }

    /// Sets the documentation.
    pub fn doc(&mut self, docs: &str) -> (r: &mut Self)
        ensures
            r@ == (FunctionModel { docs: r@.docs, ..old(self)@ }),
            r@.docs is Some,
            crate::docs::doc_lines(r@.docs->0) == crate::docs::lines_of(docs@),
            *final(self) == *final(r),
    {
        self.docs = Some(Docs::new(docs));
        self
    }

    /// Sets the lint to allow.
    pub fn allow(&mut self, allow: &str) -> (r: &mut Self)
        ensures
            r@ == (FunctionModel { allow: Some(allow@), ..old(self)@ }),
            *final(self) == *final(r),
    {
        self.allow = Some(String::from_str(allow));
        self
    }

    /// Sets the visibility.
    pub fn vis(&mut self, vis: &str) -> (r: &mut Self)
        ensures
            r@ == (FunctionModel { vis: Some(vis@), ..old(self)@ }),
            *final(self) == *final(r),
    {
        self.vis = Some(String::from_str(vis));
        self
    }

    /// Sets whether the function is `async`.
    pub fn set_async(&mut self, is_async: bool) -> (r: &mut Self)
        ensures
            r@ == (FunctionModel { is_async, ..old(self)@ }),
            *final(self) == *final(r),
    {
        self.is_async = is_async;
        self
    }

    /// Adds a generic name.
    pub fn generic(&mut self, name: &str) -> (r: &mut Self)
        ensures
            r@ == (FunctionModel { generics: old(self)@.generics.push(name@), ..old(self)@ }),
            *final(self) == *final(r),
    {
        let ghost prev = self.generics@;
        self.generics.push(String::from_str(name));
        assert(strs(self.generics@) =~= strs(prev).push(name@));
        self
    }

    /// Takes `self` as receiver.
    pub fn arg_self(&mut self) -> (r: &mut Self)
        ensures
            r@ == (FunctionModel { arg_self: Some("self"@), ..old(self)@ }),
            *final(self) == *final(r),
    {
        self.arg_self = Some(String::from_str("self"));
        self
    }

    /// Takes `&self` as receiver.
    pub fn arg_ref_self(&mut self) -> (r: &mut Self)
        ensures
            r@ == (FunctionModel { arg_self: Some("&self"@), ..old(self)@ }),
            *final(self) == *final(r),
    {
        self.arg_self = Some(String::from_str("&self"));
        self
    }

    /// Takes `&mut self` as receiver.
    pub fn arg_mut_self(&mut self) -> (r: &mut Self)
        ensures
            r@ == (FunctionModel { arg_self: Some("&mut self"@), ..old(self)@ }),
            *final(self) == *final(r),
    {
        self.arg_self = Some(String::from_str("&mut self"));
        self
    }

    /// Adds an argument of the given name and type.
    pub fn arg(&mut self, name: &str, ty: Type) -> (r: &mut Self)
        ensures
            r@ == (FunctionModel { args: old(self)@.args.push(r@.args.last()), ..old(self)@ }),
            r@.args.last().name@ == name@,
            r@.args.last().ty == ty,
            r@.args.last().documentation@.len() == 0,
            r@.args.last().annotation@.len() == 0,
            *final(self) == *final(r),
    {
        self.args.push(Field::new(name, ty));
        assert(self@.args =~= old(self)@.args.push(self@.args.last()));
        self
    }

    /// Sets the return type.
    pub fn ret(&mut self, ty: Type) -> (r: &mut Self)
        ensures
            r@ == (FunctionModel { ret: Some(ty), ..old(self)@ }),
            *final(self) == *final(r),
    {
        self.ret = Some(ty);
        self
    }

    /// Adds a `where` bound of one type.
    pub fn bound(&mut self, name: &str, ty: Type) -> (r: &mut Self)
        ensures
            r@ == (FunctionModel { bounds: old(self)@.bounds.push(r@.bounds.last()), ..old(self)@ }),
            r@.bounds.last().name@ == name@,
            r@.bounds.last().bound@ == seq![ty],
            *final(self) == *final(r),
    {
        self.bounds.push(Bound { name: String::from_str(name), bound: vec![ty] });
        assert(self@.bounds =~= old(self)@.bounds.push(self@.bounds.last()));
        self
    }

    /// Pushes a line to the body, which is made if there was none.
    pub fn line(&mut self, line: &str) -> (r: &mut Self)
        ensures
            r@ == (FunctionModel { body: r@.body, ..old(self)@ }),
            r@.body is Some,
            r@.body->0.len() >= 1,
            r@.body->0.drop_last() == (match old(self)@.body {
                Some(bs) => bs,
                None => Seq::empty(),
            }),
            r@.body->0.last() is String,
            r@.body->0.last()->String_0@ == line@,
            *final(self) == *final(r),
    {
        let item = Body::String(String::from_str(line));
        self.push_body(item);
        self
    }

    /// Pushes a block to the body, which is made if there was none.
    pub fn push_block(&mut self, block: Block) -> (r: &mut Self)
        ensures
            r@ == (FunctionModel {
                body: Some(
                    match old(self)@.body {
                        Some(bs) => bs,
                        None => Seq::empty(),
                    }.push(Body::Block(block)),
                ),
                ..old(self)@
            }),
            *final(self) == *final(r),
    {
        self.push_body(Body::Block(block));
        self
    }

    fn push_body(&mut self, item: Body)
        ensures
            final(self)@ == (FunctionModel {
                body: Some(
                    match old(self)@.body {
                        Some(bs) => bs,
                        None => Seq::empty(),
                    }.push(item),
                ),
                ..old(self)@
            }),
    {
        match &mut self.body {
            Some(v) => v.push(item),
            None => {
                self.body = Some(vec![item]);
                assert(opt_bodies(self.body)->0 =~= Seq::<Body>::empty().push(item));
            },
        }
    }

    /// Adds an attribute, written as `#[attribute]`.
    pub fn attr(&mut self, attribute: &str) -> (r: &mut Self)
        ensures
            r@ == (FunctionModel { attributes: old(self)@.attributes.push(attribute@), ..old(self)@ }),
            *final(self) == *final(r),
    {
        let ghost prev = self.attributes@;
        self.attributes.push(String::from_str(attribute));
        assert(strs(self.attributes@) =~= strs(prev).push(attribute@));
        self
    }

    /// Sets the `extern` ABI.
    pub fn extern_abi(&mut self, abi: &str) -> (r: &mut Self)
        ensures
            r@ == (FunctionModel { extern_abi: Some(abi@), ..old(self)@ }),
            *final(self) == *final(r),
    {
        self.extern_abi = Some(String::from_str(abi));
        self
    }

    /// Writes the function as `fn_out` says. In a trait (`is_trait`) a
    /// function with a visibility fails; elsewhere one without a body
    /// fails. Either way the depth is as it was.
    pub fn fmt(&self, is_trait: bool, fmt: &mut Formatter) -> (r: Result<(), CodegenError>)
        requires
            old(fmt)@.depth + fn_height(self@) <= usize::MAX,
        ensures
            final(fmt)@.depth == old(fmt)@.depth,
            r is Ok <==> fn_valid(self@, is_trait),
            is_trait && !fn_valid(self@, is_trait) ==> r == Err::<(), CodegenError>(
                CodegenError::VisibilityInTrait,
            ),
            !is_trait && !fn_valid(self@, is_trait) ==> r == Err::<(), CodegenError>(
                CodegenError::MissingBody,
            ),
            r is Ok ==> final(fmt)@ == fn_out(old(fmt)@, self@),
            r is Err ==> final(fmt)@ == put_str(old(fmt)@, fn_attrs_text(self@)),
    {
        self.fmt_attrs(fmt);
        if is_trait && self.vis.is_some() {
            return Err(CodegenError::VisibilityInTrait);
        }
        if !is_trait && self.body.is_none() {
            return Err(CodegenError::MissingBody);
        }
        let ghost st = fmt@;
        self.fmt_sig(fmt);
        proof {
            lemma_put_str_concat(old(fmt)@, fn_attrs_text(self@), fn_sig_text(self@));
        }
        match &self.body {
            Some(body) => {
                fmt.open_block();
                fmt_bodies(body, fmt);
                fmt.close_block();
            },
            None => {
                fmt.write(";\n");
            },
        }
        Ok(())
    }

    fn fmt_attrs(&self, fmt: &mut Formatter)
        ensures
            final(fmt)@ == put_str(old(fmt)@, fn_attrs_text(self@)),
            final(fmt)@.depth == old(fmt)@.depth,
    {
        let ghost st = fmt@;
        if let Some(docs) = &self.docs {
            docs.fmt(fmt);
        }
        let ghost d = match self@.docs {
            Some(d) => docs_text(d),
            None => Seq::empty(),
        };
        let ghost a = opt_text(self@.allow, "#[allow("@, ")]\n"@);
        assert(fmt@ == put_str(st, d));
        if let Some(allow) = &self.allow {
            fmt.write("#[allow(");
            fmt.write_string(allow);
            fmt.write(")]\n");
            proof {
                lemma_put_str_concat(st, d, "#[allow("@);
                lemma_put_str_concat(st, d + "#[allow("@, allow@);
                lemma_put_str_concat(st, d + "#[allow("@ + allow@, ")]\n"@);
                assert(d + "#[allow("@ + allow@ + ")]\n"@ =~= d + a);
            }
        } else {
            assert(d + a =~= d);
        }
        fmt_wrapped_lines(&self.attributes, "#[", "]\n", fmt);
        proof {
            lemma_put_str_concat(st, d + a, wrapped_lines(self@.attributes, "#["@, "]\n"@));
        }
    }

    fn fmt_sig(&self, fmt: &mut Formatter)
        ensures
            final(fmt)@ == put_str(old(fmt)@, fn_sig_text(self@)),
            final(fmt)@.depth == old(fmt)@.depth,
    {
        let ghost st = fmt@;
        let ghost mut acc: Seq<char> = Seq::empty();
        if let Some(vis) = &self.vis {
            fmt.write_string(vis);
            fmt.write(" ");
            proof {
                lemma_put_str_concat(st, vis@, " "@);
            }
        }
        proof {
            acc = vis_text(self@.vis);
            assert(fmt@ == put_str(st, acc));
        }
        if let Some(abi) = &self.extern_abi {
            fmt.write("extern \"");
            fmt.write_string(abi);
            fmt.write("\" ");
            proof {
                lemma_put_str_concat(st, acc, "extern \""@);
                lemma_put_str_concat(st, acc + "extern \""@, abi@);
                lemma_put_str_concat(st, acc + "extern \""@ + abi@, "\" "@);
                assert(acc + "extern \""@ + abi@ + "\" "@ =~= acc + opt_text(
                    self@.extern_abi,
                    "extern \""@,
                    "\" "@,
                ));
            }
        } else {
            assert(acc + opt_text(self@.extern_abi, "extern \""@, "\" "@) =~= acc);
        }
        proof {
            acc = acc + opt_text(self@.extern_abi, "extern \""@, "\" "@);
        }
        if self.is_async {
            fmt.write("async ");
            proof {
                lemma_put_str_concat(st, acc, "async "@);
            }
        } else {
            assert(acc + Seq::<char>::empty() =~= acc);
        }
        proof {
            acc = acc + (if self@.is_async {
                "async "@
            } else {
                Seq::empty()
            });
        }
        fmt.write("fn ");
        fmt.write_string(&self.name);
        fmt_generics(&self.generics, fmt);
        fmt.write("(");
        proof {
            lemma_put_str_concat(st, acc, "fn "@);
            lemma_put_str_concat(st, acc + "fn "@, self@.name);
            lemma_put_str_concat(st, acc + "fn "@ + self@.name, generics_text(self@.generics));
            lemma_put_str_concat(
                st,
                acc + "fn "@ + self@.name + generics_text(self@.generics),
                "("@,
            );
            acc = acc + "fn "@ + self@.name + generics_text(self@.generics) + "("@;
        }
        self.fmt_params(fmt);
        fmt.write(")");
        proof {
            lemma_put_str_concat(st, acc, params_text(self@));
            lemma_put_str_concat(st, acc + params_text(self@), ")"@);
            acc = acc + params_text(self@) + ")"@;
        }
        if let Some(ret) = &self.ret {
            fmt.write(" -> ");
            ret.fmt(fmt);
            proof {
                lemma_put_str_concat(st, acc, " -> "@);
                lemma_put_str_concat(st, acc + " -> "@, type_text(*ret));
                assert(acc + " -> "@ + type_text(*ret) =~= acc + (" -> "@ + type_text(*ret)));
            }
        } else {
            assert(acc + Seq::<char>::empty() =~= acc);
        }
        proof {
            acc = acc + (match self@.ret {
                Some(t) => " -> "@ + type_text(t),
                None => Seq::empty(),
            });
        }
        fmt_bounds(&self.bounds, fmt);
        proof {
            lemma_put_str_concat(st, acc, bounds_text(self@.bounds));
            crate::formatter::lemma_put_str_depth(st, fn_sig_text(self@));
        }
    }

    fn fmt_params(&self, fmt: &mut Formatter)
        ensures
            final(fmt)@ == put_str(old(fmt)@, params_text(self@)),
    {
        let ghost st = fmt@;
        if let Some(s) = &self.arg_self {
            fmt.write_string(s);
        }
        let ghost head = match self@.arg_self {
            Some(s) => s,
            None => Seq::empty(),
        };
        let has_self = self.arg_self.is_some();
        let mut i: usize = 0;
        while i < self.args.len()
            invariant
                i <= self.args.len(),
                has_self == (self@.arg_self is Some),
                fmt@ == put_str(st, head + arg_list_text(self@.args, i as nat, has_self)),
            decreases self.args.len() - i,
        {
            let ghost prev = head + arg_list_text(self@.args, i as nat, has_self);
            let arg = &self.args[i];
            if i != 0 || has_self {
                fmt.write(", ");
                proof {
                    lemma_put_str_concat(st, prev, ", "@);
                }
            } else {
                assert(prev + Seq::<char>::empty() =~= prev);
            }
            let ghost sep = if i + 1 > 1 || has_self { ", "@ } else { Seq::<char>::empty() };
            fmt.write_string(&arg.name);
            fmt.write(": ");
            arg.ty.fmt(fmt);
            proof {
                lemma_put_str_concat(st, prev + sep, arg.name@);
                lemma_put_str_concat(st, prev + sep + arg.name@, ": "@);
                lemma_put_str_concat(st, prev + sep + arg.name@ + ": "@, type_text(arg.ty));
                assert(prev + sep + arg.name@ + ": "@ + type_text(arg.ty) =~= head + arg_list_text(
                    self@.args,
                    (i + 1) as nat,
                    has_self,
                ));
            }
            i = i + 1;
        }
    }
}

/// What writing the first `n` functions does, a blank line between each
/// two, and before the first one when `lead` holds.
pub open spec fn fns_out(st: FmtState, fns: Seq<Function>, n: nat, lead: bool) -> FmtState
    decreases n,
{
    if n == 0 {
        st
    } else {
        let prev = fns_out(st, fns, (n - 1) as nat, lead);
        let sep = if n > 1 || lead { put_str(prev, "\n"@) } else { prev };
        fn_out(sep, fns[n - 1]@)
    }
}

/// The first `k` functions can be written in the given context.
pub open spec fn fns_valid_upto(fns: Seq<Function>, k: nat, is_trait: bool) -> bool {
    forall|j: int| 0 <= j < k ==> fn_valid(#[trigger] fns[j]@, is_trait)
}

/// What writing the first `n` functions does, whether or not they can all
/// be written: as `fns_out` up to the first one that cannot, of which only
/// the attribute lines are written, and nothing after it.
pub open spec fn fns_run(st: FmtState, fns: Seq<Function>, n: nat, lead: bool, is_trait: bool) -> FmtState
    decreases n,
{
    if n == 0 {
        st
    } else {
        let prev = fns_run(st, fns, (n - 1) as nat, lead, is_trait);
        if !fns_valid_upto(fns, (n - 1) as nat, is_trait) {
            prev
        } else {
            let sep = if n > 1 || lead { put_str(prev, "\n"@) } else { prev };
            if fn_valid(fns[n - 1]@, is_trait) {
                fn_out(sep, fns[n - 1]@)
            } else {
                put_str(sep, fn_attrs_text(fns[n - 1]@))
            }
        }
    }
}

pub proof fn lemma_fns_run_valid(st: FmtState, fns: Seq<Function>, n: nat, lead: bool, is_trait: bool)
    requires
        fns_valid_upto(fns, n, is_trait),
    ensures
        fns_run(st, fns, n, lead, is_trait) == fns_out(st, fns, n, lead),
    decreases n,
{
    if n > 0 {
        lemma_fns_run_valid(st, fns, (n - 1) as nat, lead, is_trait);
        assert(fn_valid(fns[n - 1]@, is_trait));
    }
}

proof fn lemma_fns_run_stuck(st: FmtState, fns: Seq<Function>, i: int, n: nat, lead: bool, is_trait: bool)
    requires
        0 <= i < n,
        !fn_valid(fns[i]@, is_trait),
    ensures
        fns_run(st, fns, n, lead, is_trait) == fns_run(st, fns, (i + 1) as nat, lead, is_trait),
    decreases n,
{
    if n > i + 1 {
        lemma_fns_run_stuck(st, fns, i, (n - 1) as nat, lead, is_trait);
        assert(!fns_valid_upto(fns, (n - 1) as nat, is_trait));
    }
}

/// Every function can be written in the given context.
pub open spec fn fns_valid(fns: Seq<Function>, is_trait: bool) -> bool {
    forall|i: int| 0 <= i < fns.len() ==> fn_valid(#[trigger] fns[i]@, is_trait)
}

/// How deep the deepest of several functions nests.
pub open spec fn fns_height(fns: Seq<Function>) -> nat
    decreases fns.len(),
{
    if fns.len() == 0 {
        0
    } else {
        let a = fns_height(fns.drop_last());
        let b = fn_height(fns.last()@);
        if a >= b { a } else { b }
    }
}

pub proof fn lemma_fns_height(fns: Seq<Function>, i: int)
    requires
        0 <= i < fns.len(),
    ensures
        fn_height(fns[i]@) <= fns_height(fns),
    decreases fns.len(),
{
    if i < fns.len() - 1 {
        lemma_fns_height(fns.drop_last(), i);
        assert(fns.drop_last()[i] == fns[i]);
    }
}

/// Writes functions one after the other, a blank line between each two and
/// before the first when `lead` holds. Fails at the first function that
/// cannot be written in the given context, the depth as it was.
pub fn fmt_fns(fns: &Vec<Function>, lead: bool, is_trait: bool, fmt: &mut Formatter) -> (r: Result<
    (),
    CodegenError,
>)
    requires
        old(fmt)@.depth + fns_height(fns@) <= usize::MAX,
    ensures
        final(fmt)@.depth == old(fmt)@.depth,
        r is Ok <==> fns_valid(fns@, is_trait),
        r is Err ==> r == Err::<(), CodegenError>(
            if is_trait {
                CodegenError::VisibilityInTrait
            } else {
                CodegenError::MissingBody
            },
        ),
        r is Ok ==> final(fmt)@ == fns_out(old(fmt)@, fns@, fns@.len(), lead),
        final(fmt)@ == fns_run(old(fmt)@, fns@, fns@.len(), lead, is_trait),
{
    let mut i: usize = 0;
    while i < fns.len()
        invariant
            i <= fns.len(),
            fmt@.depth == old(fmt)@.depth,
            old(fmt)@.depth + fns_height(fns@) <= usize::MAX,
            fmt@ == fns_out(old(fmt)@, fns@, i as nat, lead),
            forall|j: int| 0 <= j < i ==> fn_valid(#[trigger] fns@[j]@, is_trait),
        decreases fns.len() - i,
    {
        if i != 0 || lead {
            fmt.write("\n");
        }
        proof {
            lemma_fns_height(fns@, i as int);
        }
        proof {
            lemma_fns_run_valid(old(fmt)@, fns@, i as nat, lead, is_trait);
        }
        let r = fns[i].fmt(is_trait, fmt);
        if r.is_err() {
            proof {
                lemma_fns_run_stuck(old(fmt)@, fns@, i as int, fns@.len(), lead, is_trait);
            }
            return r;
        }
        i = i + 1;
    }
    proof {
        lemma_fns_run_valid(old(fmt)@, fns@, fns@.len(), lead, is_trait);
    }
    Ok(())
}

pub proof fn lemma_fn_out_depth(st: FmtState, m: FunctionModel)
    ensures
        fn_out(st, m).depth == st.depth,
{
    let s1 = put_str(st, fn_attrs_text(m) + fn_sig_text(m));
    crate::formatter::lemma_put_str_depth(st, fn_attrs_text(m) + fn_sig_text(m));
    crate::formatter::lemma_put_str_depth(s1, ";\n"@);
    crate::formatter::lemma_block_depth(s1);
    if m.body is Some {
        crate::block::lemma_bodies_out_depth(open_block_out(s1), m.body->0);
        crate::formatter::lemma_block_depth(bodies_out(open_block_out(s1), m.body->0));
    }
}

pub proof fn lemma_fns_out_depth(st: FmtState, fns: Seq<Function>, n: nat, lead: bool)
    ensures
        fns_out(st, fns, n, lead).depth == st.depth,
    decreases n,
{
    if n > 0 {
        lemma_fns_out_depth(st, fns, (n - 1) as nat, lead);
        let prev = fns_out(st, fns, (n - 1) as nat, lead);
        crate::formatter::lemma_put_str_depth(prev, "\n"@);
        let sep = if n > 1 || lead { put_str(prev, "\n"@) } else { prev };
        lemma_fn_out_depth(sep, fns[n - 1]@);
    }
}

} // verus!
